use file_fairy::chunker::chunk_text;
use file_fairy::errors::CoreError;

#[test]
fn chunking_boundary_example() {
    let chunks = chunk_text("abcdefghij", 4, 1).unwrap();
    assert_eq!(chunks, vec!["abcd", "defg", "ghij", "j"]);
}

#[test]
fn chunking_rejects_overlap_not_below_window() {
    assert!(matches!(chunk_text("abc", 4, 4), Err(CoreError::Config(_))));
    assert!(matches!(chunk_text("abc", 4, 9), Err(CoreError::Config(_))));
    assert!(matches!(chunk_text("abc", 0, 0), Err(CoreError::Config(_))));
}

#[test]
fn chunking_empty_text_gives_no_chunks() {
    let chunks = chunk_text("", 250, 50).unwrap();
    assert!(chunks.is_empty());
}

#[test]
fn chunking_short_text_gives_one_chunk() {
    let chunks = chunk_text("hello world", 250, 50).unwrap();
    assert_eq!(chunks, vec!["hello world"]);
}

#[test]
fn chunking_counts_codepoints_not_bytes() {
    let chunks = chunk_text("ありがとうございます", 4, 1).unwrap();
    assert_eq!(chunks, vec!["ありがと", "とうござ", "ざいます", "す"]);
}

#[test]
fn chunks_roundtrip_after_stripping_overlap() {
    let text = "The quick brown fox jumps over the lazy dog";
    let window = 10;
    let overlap = 3;
    let chunks = chunk_text(text, window, overlap).unwrap();
    let mut rebuilt = String::new();
    for (i, c) in chunks.iter().enumerate() {
        if i == 0 {
            rebuilt.push_str(c);
        } else {
            rebuilt.push_str(&c.chars().skip(overlap).collect::<String>());
        }
    }
    assert_eq!(rebuilt, text);
}

#[test]
fn last_chunk_ends_at_text_end() {
    let text = "0123456789abcdef";
    let chunks = chunk_text(text, 5, 2).unwrap();
    let last = chunks.last().unwrap();
    assert!(text.ends_with(last.as_str()));
}
