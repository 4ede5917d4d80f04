use file_fairy::info::features::FeatureInfo;
use file_fairy::info::formats::SupportedFormats;
use file_fairy::info::formatter::InfoFormatter;
use file_fairy::info::models::FileFairyInfo;
use file_fairy::info::system::SystemInfo;
use file_fairy::info::version::VersionInfo;

fn sample_info() -> FileFairyInfo {
    FileFairyInfo::new(
        "0.1.0".to_string(),
        "linux".to_string(),
        "x86_64".to_string(),
    )
}

#[test]
fn test_format_summary() {
    let info = sample_info();
    let summary = InfoFormatter::format_summary(&info);

    assert!(summary.contains("FILE FAIRY INFORMATION"));
    assert!(summary.contains("VERSION INFO"));
    assert!(summary.contains("SUPPORTED FORMATS"));
    assert!(summary.contains("FEATURES"));
    assert!(summary.contains("SYSTEM INFO"));
    assert!(summary.contains("USAGE EXAMPLES"));
}

#[test]
fn test_format_formats() {
    let formats = SupportedFormats::new();
    let output = InfoFormatter::format_formats(&formats);

    assert!(output.contains("SUPPORTED FILE FORMATS"));
    assert!(output.contains("DOCUMENTS"));
    assert!(output.contains("Total supported extensions"));
}

#[test]
fn test_format_system() {
    let system = SystemInfo::new("linux".to_string(), "x86_64".to_string());
    let version = VersionInfo::new("0.1.0".to_string());
    let output = InfoFormatter::format_system(&system, &version);

    assert!(output.contains("SYSTEM INFORMATION"));
    assert!(output.contains("Operating System"));
    assert!(output.contains("File Fairy Version"));
}

#[test]
fn test_format_features_section() {
    let features = FeatureInfo::new();
    let output = InfoFormatter::format_features_section(&features);

    assert!(output.contains("FEATURES"));
    assert!(output.contains("Text Extraction: \u{2713} Enabled"));
    assert!(output.contains("LLM Integration: \u{2713} Enabled"));
}
