use file_fairy::category::FileCategory;
use file_fairy::organize::OrganizeAction;

#[test]
fn test_organize_action_creation() {
    let action = OrganizeAction::new(
        "/test/old.txt".to_string(),
        "/test/new.txt".to_string(),
        "old.txt".to_string(),
        "new.txt".to_string(),
        FileCategory::Documents,
        1024,
    );

    assert!(!action.approved);
    assert_eq!(action.size, 1024);
    assert!(action.changes_filename());
    assert!(!action.changes_directory());
}

#[test]
fn test_action_description() {
    let action = OrganizeAction::new(
        "/test/old.txt".to_string(),
        "/other/new.txt".to_string(),
        "old.txt".to_string(),
        "new.txt".to_string(),
        FileCategory::Documents,
        1024,
    );

    let description = action.describe_action();
    assert!(description.contains("Move and rename"));
}
