use file_fairy::category::FileCategory;

#[test]
fn categories_from_paths() {
    assert_eq!(FileCategory::from_path("/a/b.txt"), FileCategory::Documents);
    assert_eq!(FileCategory::from_path("/a/b.PDF"), FileCategory::Documents);
    assert_eq!(FileCategory::from_path("report.hwp"), FileCategory::Documents);
    assert_eq!(FileCategory::from_path("sheet.xlsx"), FileCategory::Data);
    assert_eq!(FileCategory::from_path("song.mp3"), FileCategory::Unsupported);
    assert_eq!(FileCategory::from_path("noext"), FileCategory::Unsupported);
}

#[test]
fn extractability() {
    assert!(FileCategory::Documents.is_extractable());
    assert!(FileCategory::Data.is_extractable());
    assert!(!FileCategory::Unsupported.is_extractable());
}

#[test]
fn category_names() {
    assert_eq!(FileCategory::Documents.description(), "Document files");
    assert_eq!(FileCategory::Data.as_str(), "data");
    assert_eq!(FileCategory::Unsupported.as_str(), "unsupported");
}
