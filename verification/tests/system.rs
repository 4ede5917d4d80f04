use file_fairy::info::system::SystemInfo;

#[test]
fn test_system_info_creation() {
    let system = SystemInfo::new("linux".to_string(), "x86_64".to_string());
    assert!(!system.os.is_empty());
    assert!(!system.arch.is_empty());
    assert!(system.cpu_cores > 0);
}

#[test]
fn test_system_description() {
    let system = SystemInfo::new("linux".to_string(), "x86_64".to_string());
    let desc = system.description();
    assert!(desc.contains(&system.os));
    assert!(desc.contains(&system.arch));
    assert!(desc.contains("cores"));
}

#[test]
fn test_os_detection() {
    let system = SystemInfo::new("linux".to_string(), "x86_64".to_string());

    if system.os == "macos" {
        assert!(system.is_os("macos"));
        assert!(system.is_os("MacOS"));
        assert!(system.is_unix_like());
        assert!(!system.is_windows());
    } else if system.os == "linux" {
        assert!(system.is_os("linux"));
        assert!(system.is_os("Linux"));
        assert!(system.is_unix_like());
        assert!(!system.is_windows());
    } else if system.os == "windows" {
        assert!(system.is_os("windows"));
        assert!(system.is_os("Windows"));
        assert!(!system.is_unix_like());
        assert!(system.is_windows());
    }
}

#[test]
fn test_parallel_processing_support() {
    let system = SystemInfo::new("linux".to_string(), "x86_64".to_string());
    // Most modern systems should support parallel processing.
    assert!(system.supports_parallel_processing());
}
