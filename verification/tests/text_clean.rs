use file_fairy::text_clean::clean_text;

#[test]
fn clean_collapses_horizontal_whitespace() {
    assert_eq!(clean_text("a  \t b"), "a b");
    assert_eq!(clean_text("hello world"), "hello world");
}

#[test]
fn clean_drops_control_characters() {
    assert_eq!(clean_text("a\u{0}b\u{7}c"), "abc");
    assert_eq!(clean_text("\u{1b}[0m"), "[0m");
}

#[test]
fn clean_trims_lines_and_edges() {
    assert_eq!(clean_text("  a line  \n  next  "), "a line\nnext");
    assert_eq!(clean_text("\n\n  \n"), "");
    assert_eq!(clean_text(""), "");
}

#[test]
fn clean_collapses_blank_lines() {
    assert_eq!(clean_text("a\n\n\n\nb"), "a\n\nb");
    assert_eq!(clean_text("a\n   \n\t\nb"), "a\n\nb");
    assert_eq!(clean_text("a\n\nb"), "a\n\nb");
    assert_eq!(clean_text("a\nb"), "a\nb");
}

#[test]
fn clean_is_idempotent_on_samples() {
    let samples = [
        "  Mixed \t content\r\n\n\n with  gaps \n\n\n\n and\ttabs  ",
        "plain",
        "\u{1}\u{2}\u{3}",
        "  \n\nleading and trailing\n\n  ",
        "one\ntwo\n\nthree",
    ];
    for s in samples {
        let once = clean_text(s);
        let twice = clean_text(&once);
        assert_eq!(once, twice);
    }
}

#[test]
fn clean_output_has_no_stray_controls() {
    let out = clean_text("a\u{8}b\tc\rd");
    for c in out.chars() {
        assert!(!c.is_control() || c == '\n');
    }
}
