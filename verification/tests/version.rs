use file_fairy::info::version::VersionInfo;

#[test]
fn test_version_info_creation() {
    let version = VersionInfo::new("0.1.0".to_string());
    assert!(!version.version.is_empty());
    assert!(!version.build_date.is_empty());
}

#[test]
fn build_date_is_stamped() {
    let version = VersionInfo::new("0.1.0".to_string());
    // the clock rendering precedes the zone name
    assert!(version.build_date.len() > " UTC".len());
    assert!(version.build_date.ends_with(" UTC"));
    assert!(version.build_date.contains('-'));
}

#[test]
fn test_version_format() {
    let version = VersionInfo::new("0.1.0".to_string());
    // The version follows a semantic-versioning shape.
    assert!(version.version.contains('.'));
    // The build date names its zone.
    assert!(version.build_date.contains("UTC"));
}
