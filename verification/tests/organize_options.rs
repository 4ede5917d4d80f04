use file_fairy::category::FileCategory;
use file_fairy::organize::OrganizeOptions;

#[test]
fn options_test_default_options() {
    let options = OrganizeOptions::default();
    assert!(!options.apply);
    assert!(!options.interactive);
    assert!(options.recursive);
    assert!(options.max_depth.is_none());
}

#[test]
fn test_category_filtering() {
    let options = OrganizeOptions::new().with_categories(vec![FileCategory::Documents]);

    assert!(options.should_include_category(&FileCategory::Documents));
    assert!(!options.should_include_category(&FileCategory::Data));
}

#[test]
fn options_test_size_filtering() {
    let options = OrganizeOptions::new().with_max_file_size(1024);

    assert!(options.should_process_file_size(512));
    assert!(options.should_process_file_size(1024));
    assert!(!options.should_process_file_size(2048));
}
