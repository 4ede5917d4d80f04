use file_fairy::scan::{DirectoryScanner, ScanOptions};

#[test]
fn test_scanner_creation() {
    let scanner = DirectoryScanner::new();
    assert!(scanner.options.recursive);

    let custom_options = ScanOptions::new().with_recursive(false);
    let custom_scanner = DirectoryScanner::with_options(custom_options);
    assert!(!custom_scanner.options.recursive);
}

#[test]
fn test_validate_scan_path() {
    let scanner = DirectoryScanner::new();

    // A path that the filesystem reports missing is rejected.
    let result = scanner.validate_scan_path("/non/existent/path", false, false);
    assert!(result.is_err());

    // An existing directory passes; an existing file does not.
    assert!(scanner.validate_scan_path("/tmp", true, true).is_ok());
    assert!(scanner.validate_scan_path("/tmp/file.txt", true, false).is_err());
}
