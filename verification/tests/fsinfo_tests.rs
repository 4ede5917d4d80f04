use file_fairy::errors::ExtractorError;
use file_fairy::extractors::{extractor_from_file_path, ExtractorType};
use file_fairy::fsinfo::{DirectoryItem, FileSystemService, PathInfo};

#[test]
fn path_info_reports_name_and_kind() {
    let info = PathInfo::new("docs".to_string(), true);
    assert_eq!(info.name, "docs");
    assert!(info.is_directory);

    let info = PathInfo::from_path("/home/u/docs", true, true).unwrap();
    assert_eq!(info.name, "docs");
    assert!(info.is_directory);

    assert!(PathInfo::from_path("/gone", false, false).is_err());
}

#[test]
fn directory_items() {
    let f = DirectoryItem::new_file("a.txt".to_string(), "/d/a.txt".to_string());
    assert!(!f.is_directory);
    assert!(f.children.is_empty());

    let d = DirectoryItem::new_directory("d".to_string(), "/d".to_string(), vec![f]);
    assert!(d.is_directory);
    assert_eq!(d.children.len(), 1);
    assert_eq!(d.children[0].name, "a.txt");
}

#[test]
fn folder_names() {
    assert_eq!(
        FileSystemService::get_folder_name("/home/u/docs").unwrap(),
        "docs"
    );
    assert!(FileSystemService::get_folder_name("/docs/").is_err());
}

#[test]
fn extractor_registry_matches_extensions() {
    assert!(matches!(
        extractor_from_file_path("/a/b.txt"),
        Some(ExtractorType::Text(_))
    ));
    assert!(matches!(
        extractor_from_file_path("/a/b.md"),
        Some(ExtractorType::Text(_))
    ));
    // the match is case-insensitive and covers the whole indexing set
    assert!(matches!(
        extractor_from_file_path("/a/B.TXT"),
        Some(ExtractorType::Text(_))
    ));
    assert!(matches!(
        extractor_from_file_path("/a/notes.rst"),
        Some(ExtractorType::Text(_))
    ));
    assert!(matches!(
        extractor_from_file_path("/a/build.log"),
        Some(ExtractorType::Text(_))
    ));
    assert!(matches!(
        extractor_from_file_path("/a/b.Pdf"),
        Some(ExtractorType::Pdf(_))
    ));
    assert!(matches!(
        extractor_from_file_path("/a/b.pdf"),
        Some(ExtractorType::Pdf(_))
    ));
    assert!(matches!(
        extractor_from_file_path("/a/b.hwp"),
        Some(ExtractorType::Hwp(_))
    ));
    assert!(matches!(
        extractor_from_file_path("/a/b.docx"),
        Some(ExtractorType::Docx(_))
    ));
    assert!(matches!(
        extractor_from_file_path("/a/b.xlsx"),
        Some(ExtractorType::Xlsx(_))
    ));
    assert!(matches!(
        extractor_from_file_path("/a/b.pptx"),
        Some(ExtractorType::Pptx(_))
    ));
    // unknown extensions get no extractor
    assert!(extractor_from_file_path("/a/b.zip").is_none());
    assert!(extractor_from_file_path("/a/noext").is_none());
    assert!(extractor_from_file_path("/a/trailing.").is_none());
}

#[test]
fn extractor_errors_carry_their_paths() {
    let e = ExtractorError::format_error("/a/b.pdf".to_string(), "broken xref".to_string());
    assert!(matches!(e, ExtractorError::FormatError { .. }));
    let e = ExtractorError::unsupported_format("/a/b.zip".to_string());
    assert!(matches!(e, ExtractorError::UnsupportedFormat { .. }));
}
