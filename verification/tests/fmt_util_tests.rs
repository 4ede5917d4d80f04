use file_fairy::fmt_util::{
    format_file_size, join_strs, make_spaces, pad_left, pad_right, truncate_display, u64_str,
    usize_str,
};

#[test]
fn decimal_rendering() {
    assert_eq!(u64_str(0), "0");
    assert_eq!(u64_str(7), "7");
    assert_eq!(u64_str(105), "105");
    assert_eq!(u64_str(u64::MAX), "18446744073709551615");
    assert_eq!(usize_str(12), "12");
}

#[test]
fn padding() {
    assert_eq!(pad_left("7", 3), "  7");
    assert_eq!(pad_right("ab", 4), "ab  ");
    assert_eq!(pad_left("long", 2), "long");
    assert_eq!(make_spaces(3), "   ");
}

#[test]
fn truncation_with_ellipsis() {
    assert_eq!(truncate_display("short", 17), "short");
    assert_eq!(truncate_display("a rather long piece", 10), "a rathe...");
}

#[test]
fn joining_with_separator() {
    let v = vec!["txt".to_string(), "md".to_string(), "pdf".to_string()];
    assert_eq!(join_strs(&v, ", "), "txt, md, pdf");
    assert_eq!(join_strs(&vec![], ", "), "");
    assert_eq!(join_strs(&vec!["one".to_string()], ", "), "one");
}

#[test]
fn file_sizes_at_unit_edges() {
    assert_eq!(format_file_size(0), "0 B");
    assert_eq!(format_file_size(1023), "1023 B");
    assert_eq!(format_file_size(1024 * 1024 - 1), "1023.9 KB");
    assert_eq!(format_file_size(1024 * 1024 * 1024), "1.0 GB");
    assert_eq!(format_file_size(1024u64 * 1024 * 1024 * 1024), "1.0 TB");
}
