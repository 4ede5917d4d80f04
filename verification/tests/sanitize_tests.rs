use file_fairy::sanitize::sanitize_filename;

#[test]
fn sanitize_example_report_name() {
    let out = sanitize_filename("  Final Report: Q3/2024?.draft  ");
    assert_eq!(out, "Final_Report_Q3_2024_draft");
}

#[test]
fn sanitize_keeps_letters_digits_hyphens() {
    assert_eq!(sanitize_filename("notes-2024"), "notes-2024");
    assert_eq!(sanitize_filename("hello world"), "hello_world");
    assert_eq!(sanitize_filename("a<>:\"/\\|?*b"), "a_b");
}

#[test]
fn sanitize_collapses_and_trims_underscores() {
    assert_eq!(sanitize_filename("__a___b__"), "a_b");
    assert_eq!(sanitize_filename("..name.."), "name");
}

#[test]
fn sanitize_empty_falls_back() {
    assert_eq!(sanitize_filename(""), "suggested_filename");
    assert_eq!(sanitize_filename("   "), "suggested_filename");
    assert_eq!(sanitize_filename("???"), "suggested_filename");
}

#[test]
fn sanitize_caps_stem_at_200_codepoints() {
    let long = "a".repeat(500);
    let out = sanitize_filename(&long);
    assert_eq!(out.chars().count(), 200);
}

#[test]
fn sanitize_is_idempotent_on_samples() {
    let samples = [
        "  Final Report: Q3/2024?.draft  ",
        "",
        "normal_name",
        "a b c d",
        "!!!",
        "x_",
    ];
    for s in samples {
        let once = sanitize_filename(s);
        let twice = sanitize_filename(&once);
        assert_eq!(once, twice);
    }
}

#[test]
fn sanitize_output_shape() {
    let out = sanitize_filename("Quarterly (final) v2!");
    assert!(!out.starts_with('_') && !out.ends_with('_'));
    assert!(!out.starts_with('.') && !out.ends_with('.'));
    assert!(!out.starts_with(' ') && !out.ends_with(' '));
    for c in out.chars() {
        assert!(c.is_ascii_alphanumeric() || c == '_' || c == '-');
    }
}
