use file_fairy::info::models::FileFairyInfo;

#[test]
fn test_info_creation() {
    let info = FileFairyInfo::new(
        "0.1.0".to_string(),
        "linux".to_string(),
        "x86_64".to_string(),
    );
    assert!(!info.version.version.is_empty());
    assert!(!info.system.os.is_empty());
    assert!(info.supported_formats.total_extensions > 0);
}

#[test]
fn test_default_implementation() {
    let info = FileFairyInfo::default();
    assert!(!info.version.version.is_empty());
}
