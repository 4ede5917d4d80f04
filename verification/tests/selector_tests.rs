use file_fairy::selector::{
    chunks_by_indices, extract_key_chunks, sort_clusters, sorted_unique_indices,
    top_representatives,
};

fn chunk_vec(n: usize) -> Vec<String> {
    (0..n).map(|i| format!("chunk-{}", i)).collect()
}

#[test]
fn few_chunks_come_back_unchanged() {
    let chunks = chunk_vec(3);
    let nearest = vec![0usize, 1, 2];
    let out = extract_key_chunks(&chunks, &nearest, 4);
    assert_eq!(out, chunks);
}

#[test]
fn selection_is_deduplicated_and_ordered() {
    let chunks = chunk_vec(10);
    // three clusters nominate chunks 8, 2 and 5; one nomination repeats
    let nearest = vec![8usize, 2, 5, 2];
    let out = extract_key_chunks(&chunks, &nearest, 3);
    assert_eq!(out, vec!["chunk-2", "chunk-5", "chunk-8"]);
}

#[test]
fn distinct_nominations_select_one_chunk_per_cluster() {
    // three clusters, three distinct representatives: exactly three chunks
    let chunks = chunk_vec(10);
    let nearest = vec![8usize, 2, 5];
    let out = extract_key_chunks(&chunks, &nearest, 3);
    assert_eq!(out.len(), nearest.len());
    assert_eq!(out, vec!["chunk-2", "chunk-5", "chunk-8"]);
}

#[test]
fn selection_three_well_separated_clusters() {
    // ten chunks falling into clusters of sizes 5, 3 and 2: the clustering
    // nominates one representative per cluster
    let chunks = chunk_vec(10);
    let reps = vec![(5usize, 1usize), (3usize, 6usize), (2usize, 9usize)];
    let picked = top_representatives(&reps, 3);
    let idx = sorted_unique_indices(&picked);
    let out = chunks_by_indices(&chunks, &idx);
    assert_eq!(out, vec!["chunk-1", "chunk-6", "chunk-9"]);
}

#[test]
fn top_representatives_ranks_by_size() {
    let reps = vec![(2usize, 0usize), (5usize, 3usize), (4usize, 1usize)];
    let picked = top_representatives(&reps, 2);
    assert_eq!(picked, vec![3, 1]);
}

#[test]
fn top_representatives_breaks_ties_by_lower_index() {
    let reps = vec![(3usize, 7usize), (3usize, 2usize)];
    let picked = top_representatives(&reps, 2);
    assert_eq!(picked, vec![2, 7]);
}

#[test]
fn sort_clusters_orders_best_first() {
    let v = vec![(1usize, 9usize), (4usize, 5usize), (4usize, 3usize)];
    let sorted = sort_clusters(&v);
    assert_eq!(sorted, vec![(4, 3), (4, 5), (1, 9)]);
}

#[test]
fn sorted_unique_indices_sorts_and_dedups() {
    let xs = vec![9usize, 1, 4, 1, 9];
    assert_eq!(sorted_unique_indices(&xs), vec![1, 4, 9]);
}
