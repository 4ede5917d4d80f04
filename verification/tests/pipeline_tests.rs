use file_fairy::errors::CoreError;
use file_fairy::pipeline::{
    batch_ranges, clean_and_chunk, normalize_query, plan_index_file, validate_rename,
    ExtractionService, IndexPlan,
};

#[test]
fn plan_rejects_missing_and_non_files() {
    assert!(matches!(
        plan_index_file("/gone.txt", false, false),
        Err(CoreError::PathNotFound { .. })
    ));
    assert!(matches!(
        plan_index_file("/a/dir.txt", true, false),
        Err(CoreError::UnsupportedFileType { .. })
    ));
}

#[test]
fn plan_skips_unknown_extensions_and_extracts_known() {
    assert_eq!(plan_index_file("/a/b.zip", true, true).unwrap(), IndexPlan::Skip);
    assert_eq!(
        plan_index_file("/a/b.txt", true, true).unwrap(),
        IndexPlan::Extract
    );
    assert_eq!(
        plan_index_file("/a/b.pdf", true, true).unwrap(),
        IndexPlan::Extract
    );
}

#[test]
fn clean_then_chunk() {
    let chunks = clean_and_chunk("  hello   world  ", 5, 1).unwrap();
    // cleaned to "hello world", then cut into windows of five
    assert_eq!(chunks, vec!["hello", "o wor", "rld"]);
    assert!(clean_and_chunk("text", 4, 4).is_err());
}

#[test]
fn cleaning_keeps_plain_text() {
    let out = ExtractionService::clean_content("hello world").unwrap();
    assert_eq!(out, "hello world");
    let out = ExtractionService::clean_content("").unwrap();
    assert_eq!(out, "");
}

#[test]
fn batches_cover_everything_in_order() {
    assert_eq!(batch_ranges(0, 10), vec![]);
    assert_eq!(batch_ranges(25, 10), vec![(0, 10), (10, 20), (20, 25)]);
    assert_eq!(batch_ranges(10, 10), vec![(0, 10)]);
    assert_eq!(batch_ranges(3, 10), vec![(0, 3)]);
}

#[test]
fn queries_are_trimmed() {
    assert_eq!(normalize_query("  fox \n"), Some("fox".to_string()));
    assert_eq!(normalize_query("fox jumps"), Some("fox jumps".to_string()));
    assert_eq!(normalize_query("   \t\n"), None);
    assert_eq!(normalize_query(""), None);
}

#[test]
fn rename_validation() {
    assert!(validate_rename("/a.txt", "/b.txt", true, false).is_ok());
    assert!(validate_rename("", "/b.txt", true, false).is_err());
    assert!(validate_rename("/a.txt", "", true, false).is_err());
    assert!(validate_rename("/a.txt", "/b.txt", false, false).is_err());
    assert!(validate_rename("/a.txt", "/b.txt", true, true).is_err());
}
