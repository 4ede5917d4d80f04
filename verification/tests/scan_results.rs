use file_fairy::category::FileCategory;
use file_fairy::scan::ScanResults;

#[test]
fn test_format_file_size() {
    assert_eq!(ScanResults::format_size(500), "500 B");
    assert_eq!(ScanResults::format_size(1024), "1.0 KB");
    assert_eq!(ScanResults::format_size(1536), "1.5 KB");
    assert_eq!(ScanResults::format_size(1024 * 1024), "1.0 MB");
}

#[test]
fn scan_results_counters() {
    let mut results = ScanResults::new("/test".to_string());

    assert_eq!(results.total_files, 0);
    assert!(!results.has_supported_files());
    assert!(!results.has_errors());

    results.add_file(FileCategory::Documents, 1024, true);
    results.add_file(FileCategory::Documents, 2048, false);
    results.add_file(FileCategory::Data, 512, true);
    results.add_error();

    assert_eq!(results.total_files, 3);
    assert_eq!(results.total_size, 3584);
    assert_eq!(results.total_supported, 2);
    assert_eq!(results.total_supported_size, 1536);
    assert!(results.has_supported_files());
    assert!(results.has_errors());
    assert_eq!(results.categories.len(), 2);
}

#[test]
fn scan_results_categories_ranked_by_count() {
    let mut results = ScanResults::new("/test".to_string());

    results.add_file(FileCategory::Documents, 1024, true);
    results.add_file(FileCategory::Documents, 1024, true);
    results.add_file(FileCategory::Data, 1024, true);

    let sorted = results.categories_by_count();
    assert_eq!(sorted.len(), 2);
    assert_eq!(sorted[0].0, FileCategory::Documents);
    assert_eq!(sorted[0].1.count, 2);
}

#[test]
fn scan_summary_mentions_totals() {
    let mut results = ScanResults::new("/data/docs".to_string());
    results.add_file(FileCategory::Documents, 1024, true);
    let text = results.format_summary();
    assert!(text.contains("Scan Results for: /data/docs"));
    assert!(text.contains("Total Files: 1"));
    assert!(text.contains("OVERALL SUMMARY"));
}
