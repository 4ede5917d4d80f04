use file_fairy::info::formats::SupportedFormats;

#[test]
fn test_supported_formats_creation() {
    let formats = SupportedFormats::new();
    assert!(formats.total_extensions > 0);
    assert!(!formats.extensions.is_empty());
    assert!(formats.has_category("Documents"));
    assert!(formats.has_category("Data"));
}

#[test]
fn test_extension_support_check() {
    let formats = SupportedFormats::new();
    assert!(formats.is_extension_supported("pdf"));
    assert!(formats.is_extension_supported("docx"));
    assert!(!formats.is_extension_supported("xyz"));
}

#[test]
fn test_category_retrieval() {
    let formats = SupportedFormats::new();
    let docs = formats.get_category("Documents").unwrap();
    assert!(docs.extractable);
    assert!(docs.extensions.contains(&"pdf".to_string()));
}

#[test]
fn test_unknown_category_not_in_extensions() {
    let formats = SupportedFormats::new();
    // The "*" from the Unknown category is not a supported extension.
    assert!(!formats.extensions.contains(&"*".to_string()));
}
