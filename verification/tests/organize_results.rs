use file_fairy::category::FileCategory;
use file_fairy::fmt_util::format_file_size;
use file_fairy::organize::{OrganizeAction, OrganizeResults};

#[test]
fn results_test_format_file_size() {
    assert_eq!(format_file_size(500), "500 B");
    assert_eq!(format_file_size(1024), "1.0 KB");
    assert_eq!(format_file_size(1536), "1.5 KB");
    assert_eq!(format_file_size(1024 * 1024), "1.0 MB");
}

#[test]
fn results_ledger_counters() {
    let mut results = OrganizeResults::new("/test".to_string(), false);

    results.record_success();
    results.record_failure("test error".to_string());
    results.record_skip();

    assert_eq!(results.successful_actions, 1);
    assert_eq!(results.failed_actions, 1);
    assert_eq!(results.skipped_actions, 1);
    assert_eq!(results.errors.len(), 1);
}

#[test]
fn results_preview_counts_approved() {
    let mut results = OrganizeResults::new("/test".to_string(), true);
    assert!(results.dry_run);
    assert_eq!(results.total_actions(), 0);
    assert_eq!(results.approved_actions(), 0);

    let mut a = OrganizeAction::new(
        "/test/a.txt".to_string(),
        "/test/b.txt".to_string(),
        "a.txt".to_string(),
        "b.txt".to_string(),
        FileCategory::Documents,
        10,
    );
    a.approve();
    results.add_action(a);
    let b = OrganizeAction::new(
        "/test/c.txt".to_string(),
        "/test/d.txt".to_string(),
        "c.txt".to_string(),
        "d.txt".to_string(),
        FileCategory::Documents,
        20,
    );
    results.add_action(b);

    assert_eq!(results.total_actions(), 2);
    assert_eq!(results.approved_actions(), 1);

    let text = results.format_preview();
    assert!(text.contains("ORGANIZATION PREVIEW"));
    assert!(text.contains("a.txt"));
}

#[test]
fn update_suggested_filename_moves_destination() {
    let mut a = OrganizeAction::new(
        "/docs/report.txt".to_string(),
        "/docs/old.txt".to_string(),
        "report.txt".to_string(),
        "old.txt".to_string(),
        FileCategory::Documents,
        10,
    );
    a.update_suggested_filename("fresh.txt".to_string());
    assert_eq!(a.suggested_filename, "fresh.txt");
    assert_eq!(a.destination, "/docs/fresh.txt");
}
