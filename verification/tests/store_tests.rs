use file_fairy::errors::CoreError;
use file_fairy::store::{build_records, ChunkStore, FileChunkSchema};

fn records_for(path: &str, texts: &[&str], dim: usize, ts: u64) -> Vec<FileChunkSchema> {
    let owned: Vec<String> = texts.iter().map(|t| t.to_string()).collect();
    let dims: Vec<usize> = texts.iter().map(|_| dim).collect();
    build_records(path, &owned, &dims, dim, ts).unwrap()
}

#[test]
fn build_records_numbers_chunks_sequentially() {
    let rows = records_for("/docs/a.txt", &["one", "two", "three"], 8, 42);
    assert_eq!(rows.len(), 3);
    for (i, row) in rows.iter().enumerate() {
        assert_eq!(row.chunk_id, i as u64);
        assert_eq!(row.file_path, "/docs/a.txt");
        assert_eq!(row.file_name, "a.txt");
        assert_eq!(row.created_at, 42);
        assert_eq!(row.vector_dim, 8);
    }
    assert_eq!(rows[1].text, "two");
}

#[test]
fn build_records_rejects_partial_embeddings() {
    let texts = vec!["one".to_string(), "two".to_string()];
    let short = vec![8usize];
    assert!(matches!(
        build_records("/a.txt", &texts, &short, 8, 0),
        Err(CoreError::Llm(_))
    ));
    let wrong = vec![8usize, 7usize];
    assert!(matches!(
        build_records("/a.txt", &texts, &wrong, 8, 0),
        Err(CoreError::Llm(_))
    ));
}

#[test]
fn upsert_then_count() {
    let mut store = ChunkStore::new(8);
    assert_eq!(store.count(), 0);
    assert!(!store.contains_path("/docs/a.txt"));

    let rows = records_for("/docs/a.txt", &["hello world"], 8, 1);
    store.upsert_file("/docs/a.txt", rows).unwrap();

    assert_eq!(store.count(), 1);
    assert!(store.contains_path("/docs/a.txt"));
    assert_eq!(store.count_by_path("/docs/a.txt"), 1);
    let got = store.rows_for_path("/docs/a.txt");
    assert_eq!(got[0].text, "hello world");
    assert_eq!(got[0].file_name, "a.txt");
}

#[test]
fn upsert_replaces_prior_generation() {
    let mut store = ChunkStore::new(4);
    let first = records_for("/a.txt", &["old one", "old two"], 4, 1);
    store.upsert_file("/a.txt", first).unwrap();
    assert_eq!(store.count_by_path("/a.txt"), 2);

    let second = records_for("/a.txt", &["new"], 4, 2);
    store.upsert_file("/a.txt", second).unwrap();
    assert_eq!(store.count_by_path("/a.txt"), 1);
    assert_eq!(store.rows_for_path("/a.txt")[0].text, "new");
}

#[test]
fn upsert_twice_with_same_rows_is_idempotent() {
    let mut once = ChunkStore::new(4);
    let mut twice = ChunkStore::new(4);
    let rows = records_for("/a.txt", &["alpha", "beta"], 4, 7);

    once.upsert_file("/a.txt", rows.clone()).unwrap();
    twice.upsert_file("/a.txt", rows.clone()).unwrap();
    twice.upsert_file("/a.txt", rows).unwrap();

    assert_eq!(once.count(), twice.count());
    let a = once.rows_for_path("/a.txt");
    let b = twice.rows_for_path("/a.txt");
    assert_eq!(a.len(), b.len());
    for (x, y) in a.iter().zip(b.iter()) {
        assert_eq!(x.chunk_id, y.chunk_id);
        assert_eq!(x.text, y.text);
        assert_eq!(x.created_at, y.created_at);
        assert_eq!(x.vector_dim, y.vector_dim);
    }
}

#[test]
fn remove_file_touches_only_its_path() {
    let mut store = ChunkStore::new(4);
    store
        .upsert_file("/a.txt", records_for("/a.txt", &["a1", "a2"], 4, 1))
        .unwrap();
    store
        .upsert_file("/b.txt", records_for("/b.txt", &["b1"], 4, 1))
        .unwrap();

    store.remove_file("/a.txt");

    assert_eq!(store.count_by_path("/a.txt"), 0);
    assert_eq!(store.count_by_path("/b.txt"), 1);
    assert_eq!(store.count(), 1);

    // removing a path with no rows is not an error
    store.remove_file("/missing.txt");
    assert_eq!(store.count(), 1);
}

#[test]
fn upsert_keeps_timestamps_monotonic_per_file() {
    let mut store = ChunkStore::new(4);
    store
        .upsert_file("/a.txt", records_for("/a.txt", &["first"], 4, 5))
        .unwrap();

    // an older re-ingest is rejected and changes nothing
    let stale = records_for("/a.txt", &["stale"], 4, 3);
    assert!(store.upsert_file("/a.txt", stale).is_err());
    assert_eq!(store.rows_for_path("/a.txt")[0].text, "first");

    // equal and newer timestamps pass
    store
        .upsert_file("/a.txt", records_for("/a.txt", &["same"], 4, 5))
        .unwrap();
    store
        .upsert_file("/a.txt", records_for("/a.txt", &["newer"], 4, 9))
        .unwrap();
    assert_eq!(store.rows_for_path("/a.txt")[0].created_at, 9);

    // other files are not constrained by this file's clock
    store
        .upsert_file("/b.txt", records_for("/b.txt", &["b"], 4, 1))
        .unwrap();
}

#[test]
fn upsert_rejects_wrong_dimension() {
    let mut store = ChunkStore::new(4);
    let rows = records_for("/a.txt", &["text"], 8, 1);
    assert!(store.upsert_file("/a.txt", rows).is_err());
    assert_eq!(store.count(), 0);
}

#[test]
fn upsert_rejects_gapped_chunk_ids() {
    let mut store = ChunkStore::new(4);
    let rows = vec![FileChunkSchema::new(
        5,
        "/a.txt".to_string(),
        "text".to_string(),
        4,
        1,
    )];
    assert!(store.upsert_file("/a.txt", rows).is_err());
}

#[test]
fn upsert_rejects_foreign_key() {
    let mut store = ChunkStore::new(4);
    let rows = records_for("/other.txt", &["text"], 4, 1);
    assert!(store.upsert_file("/a.txt", rows).is_err());
}
