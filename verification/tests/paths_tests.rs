use file_fairy::paths::{file_name_of, join_path, lower_ascii, parent_of, split_name, upper_ascii};

#[test]
fn file_names() {
    assert_eq!(file_name_of("/home/u/docs/a.txt"), "a.txt");
    assert_eq!(file_name_of("a.txt"), "a.txt");
    assert_eq!(file_name_of("/trailing/"), "");
    assert_eq!(file_name_of(""), "");
}

#[test]
fn stems_and_extensions() {
    assert_eq!(split_name("a.txt"), ("a".to_string(), Some("txt".to_string())));
    assert_eq!(split_name("archive.tar.gz"), ("archive.tar".to_string(), Some("gz".to_string())));
    assert_eq!(split_name("noext"), ("noext".to_string(), None));
    assert_eq!(split_name(".hidden"), (".hidden".to_string(), None));
    // a trailing dot is no extension
    assert_eq!(split_name("draft."), ("draft".to_string(), None));
}

#[test]
fn parents() {
    assert_eq!(parent_of("/home/u/a.txt"), Some("/home/u".to_string()));
    assert_eq!(parent_of("/a.txt"), Some("/".to_string()));
    assert_eq!(parent_of("a.txt"), Some("".to_string()));
    assert_eq!(parent_of(""), None);
}

#[test]
fn joining() {
    assert_eq!(join_path("/home/u", "a.txt"), "/home/u/a.txt");
    assert_eq!(join_path("/", "a.txt"), "/a.txt");
    assert_eq!(join_path("", "a.txt"), "a.txt");
}

#[test]
fn ascii_case() {
    assert_eq!(lower_ascii("PDF-File_09"), "pdf-file_09");
    assert_eq!(upper_ascii("documents"), "DOCUMENTS");
}
