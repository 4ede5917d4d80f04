use file_fairy::search::{score_of, search_rows};
use file_fairy::store::FileChunkSchema;

fn row(path: &str, id: u64, text: &str) -> FileChunkSchema {
    FileChunkSchema::new(id, path.to_string(), text.to_string(), 4, 1)
}

fn terms(words: &[&str]) -> Vec<String> {
    words.iter().map(|w| w.to_string()).collect()
}

#[test]
fn scores_count_matching_terms() {
    let t = terms(&["quick", "fox", "moon"]);
    assert_eq!(score_of(&t, "the quick brown fox"), 2);
    assert_eq!(score_of(&t, "lorem ipsum dolor sit"), 0);
    // matching ignores ASCII case on both sides
    assert_eq!(score_of(&terms(&["FOX"]), "the Quick brown fox"), 1);
    assert_eq!(score_of(&terms(&[]), "anything"), 0);
}

#[test]
fn search_ranks_best_first() {
    let rows = vec![
        row("/a.txt", 0, "lorem ipsum dolor sit"),
        row("/b.txt", 0, "the quick brown fox"),
        row("/c.txt", 0, "a fox saw another quick fox jump"),
    ];
    let t = terms(&["quick", "fox", "jump"]);
    let hits = search_rows(&rows, &t, 10);
    assert_eq!(hits.len(), 2);
    // all three terms occur in the last row, two in the second
    assert_eq!(hits[0].file_path, "/c.txt");
    assert_eq!(hits[1].file_path, "/b.txt");
}

#[test]
fn search_excludes_non_matches_and_honours_limit() {
    let rows = vec![
        row("/a.txt", 0, "fox one"),
        row("/b.txt", 0, "fox two"),
        row("/c.txt", 0, "fox three"),
        row("/d.txt", 0, "nothing here"),
    ];
    let t = terms(&["fox"]);
    let hits = search_rows(&rows, &t, 2);
    assert_eq!(hits.len(), 2);
    for h in &hits {
        assert!(h.text.contains("fox"));
    }
    assert!(search_rows(&rows, &terms(&["owl"]), 2).is_empty());
}

#[test]
fn limit_keeps_the_best_scores() {
    let rows = vec![
        row("/low.txt", 0, "fox"),
        row("/high.txt", 0, "quick brown fox jumps"),
        row("/mid.txt", 0, "quick fox"),
    ];
    let t = terms(&["quick", "fox", "jumps"]);
    // three rows match; only the two best may come back
    let hits = search_rows(&rows, &t, 2);
    assert_eq!(hits.len(), 2);
    assert_eq!(hits[0].file_path, "/high.txt");
    assert_eq!(hits[1].file_path, "/mid.txt");
}

#[test]
fn every_match_returns_when_the_limit_allows() {
    let rows = vec![
        row("/a.txt", 0, "fox one"),
        row("/b.txt", 0, "no match"),
        row("/c.txt", 0, "fox two"),
    ];
    let hits = search_rows(&rows, &terms(&["fox"]), 10);
    // completeness: exactly the matching rows, none repeated
    assert_eq!(hits.len(), 2);
    assert_ne!(hits[0].file_path, hits[1].file_path);
}

#[test]
fn ranking_example_from_two_files() {
    // two indexed texts; the query names only the first
    let rows = vec![
        row("/one.txt", 0, "the quick brown fox"),
        row("/two.txt", 0, "lorem ipsum dolor sit"),
    ];
    let hits = search_rows(&rows, &terms(&["fox"]), 2);
    assert_eq!(hits.len(), 1);
    assert_eq!(hits[0].file_path, "/one.txt");
}
