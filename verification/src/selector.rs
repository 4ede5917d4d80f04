//! Representative-chunk selection.
//!
//! Given one centroid-nearest chunk index per cluster (the distance work
//! happens outside the verified core, on the embedding vectors), the
//! selector ranks clusters by size, keeps the largest, de-duplicates the
//! chosen chunk indices and returns the chunks in original document order.
//! `lemma_selection_is_subsequence` states the order law and
//! `lemma_selection_cardinality` the cardinality law.

use vstd::multiset::Multiset;
use vstd::prelude::*;

verus! {

/// Cluster summaries are ranked by size, largest first; equal sizes are
/// broken deterministically by the lower representative index.
pub open spec fn cluster_before(a: (usize, usize), b: (usize, usize)) -> bool {
    a.0 > b.0 || (a.0 == b.0 && a.1 <= b.1)
}

/// A cluster ranking, best first.
pub open spec fn sorted_clusters(s: Seq<(usize, usize)>) -> bool {
    forall|i: int, j: int| 0 <= i < j < s.len() ==> cluster_before(#[trigger] s[i], #[trigger] s[j])
}

/// A strictly increasing index sequence.
pub open spec fn strictly_increasing(s: Seq<usize>) -> bool {
    forall|i: int, j: int| 0 <= i < j < s.len() ==> #[trigger] s[i] < #[trigger] s[j]
}

/// Pairwise-distinct nominations: disjoint clusters nominate one chunk
/// each, so no two clusters share a representative.
pub open spec fn distinct_indices(s: Seq<usize>) -> bool {
    forall|i: int, j: int| 0 <= i < j < s.len() ==> #[trigger] s[i] != #[trigger] s[j]
}

/// `a` is `b` with some elements left out, order kept.
pub open spec fn is_subsequence_of(a: Seq<String>, b: Seq<String>) -> bool {
    exists|ix: Seq<usize>|
        {
            &&& strictly_increasing(ix)
            &&& ix.len() == a.len()
            &&& forall|i: int| 0 <= i < ix.len() ==> #[trigger] ix[i] < b.len()
            &&& forall|i: int| 0 <= i < a.len() ==> #[trigger] a[i] == b[ix[i] as int]
        }
}

/// Sorts cluster summaries `(size, representative index)` best first.
pub fn sort_clusters(v: &Vec<(usize, usize)>) -> (r: Vec<(usize, usize)>)
    ensures
        sorted_clusters(r@),
        r@.to_multiset() == v@.to_multiset(),
        r@.len() == v@.len(),
{
    let mut out: Vec<(usize, usize)> = Vec::new();
    let mut i: usize = 0;
    proof {
        broadcast use vstd::seq_lib::group_to_multiset_ensures;

        assert(v@.take(0) =~= Seq::<(usize, usize)>::empty());
        assert(out@.to_multiset() =~= v@.take(0).to_multiset());
    }
    while i < v.len()
        invariant
            i <= v.len(),
            out@.len() == i,
            sorted_clusters(out@),
            out@.to_multiset() == v@.take(i as int).to_multiset(),
        decreases v.len() - i,
    {
        let x = v[i];
        let mut pos: usize = 0;
        while pos < out.len() && (out[pos].0 > x.0 || (out[pos].0 == x.0 && out[pos].1 <= x.1))
            invariant
                pos <= out.len(),
                forall|m: int| 0 <= m < pos ==> cluster_before(#[trigger] out@[m], x),
            decreases out.len() - pos,
        {
            pos = pos + 1;
        }
        let ghost before = out@;
        out.insert(pos, x);
        proof {
            broadcast use vstd::seq_lib::group_to_multiset_ensures;

            before.insert_ensures(pos as int, x);
            assert forall|a: int, b: int|
                0 <= a < b < out@.len() implies cluster_before(
                #[trigger] out@[a],
                #[trigger] out@[b],
            ) by {
                if a < pos && b < pos {
                    assert(out@[a] == before[a] && out@[b] == before[b]);
                } else if a < pos && b == pos {
                    assert(out@[a] == before[a]);
                } else if a < pos && b > pos {
                    assert(out@[a] == before[a] && out@[b] == before[b - 1]);
                } else if a == pos {
                    assert(out@[b] == before[b - 1]);
                    assert(pos < before.len() ==> !cluster_before(before[pos as int], x));
                } else {
                    assert(out@[a] == before[a - 1] && out@[b] == before[b - 1]);
                }
            }
            assert(out@ =~= before.take(pos as int) + (seq![x] + before.skip(pos as int)));
            vstd::seq_lib::lemma_multiset_commutative(
                before.take(pos as int),
                seq![x] + before.skip(pos as int),
            );
            vstd::seq_lib::lemma_multiset_commutative(seq![x], before.skip(pos as int));
            vstd::seq_lib::lemma_multiset_commutative(
                before.take(pos as int),
                before.skip(pos as int),
            );
            assert(before.take(pos as int) + before.skip(pos as int) =~= before);
            assert(seq![x] =~= Seq::<(usize, usize)>::empty().push(x));
            assert(seq![x].to_multiset() =~= Multiset::<(usize, usize)>::empty().insert(x));
            assert(out@.to_multiset() =~= before.to_multiset().insert(x));
            assert(v@.take(i + 1).drop_last() =~= v@.take(i as int));
            assert(v@.take(i + 1) =~= v@.take(i as int).push(x));
        }
        i = i + 1;
    }
    proof {
        assert(v@.take(v@.len() as int) =~= v@);
    }
    out
}

/// Keeps the representative indices of the `k` best-ranked clusters (all of
/// them when there are fewer), in rank order.
pub fn top_representatives(reps: &Vec<(usize, usize)>, k: usize) -> (r: Vec<usize>)
    ensures
        exists|ranked: Seq<(usize, usize)>|
            {
                &&& sorted_clusters(ranked)
                &&& ranked.to_multiset() == reps@.to_multiset()
                &&& r@.len() == if k <= reps@.len() {
                    k as int
                } else {
                    reps@.len() as int
                }
                &&& forall|i: int| 0 <= i < r@.len() ==> #[trigger] r@[i] == ranked[i].1
            },
{
    let ranked = sort_clusters(reps);
    let take_n = if k <= ranked.len() {
        k
    } else {
        ranked.len()
    };
    proof {
        broadcast use vstd::seq_lib::group_to_multiset_ensures;

        assert(ranked@.len() == reps@.len());
    }
    let mut r: Vec<usize> = Vec::new();
    let mut i: usize = 0;
    while i < take_n
        invariant
            take_n <= ranked@.len(),
            i <= take_n,
            r@.len() == i,
            forall|j: int| 0 <= j < i ==> #[trigger] r@[j] == ranked@[j].1,
        decreases take_n - i,
    {
        let p = ranked[i];
        r.push(p.1);
        i = i + 1;
    }
    proof {
        let ghost w = ranked@;
        assert(sorted_clusters(w) && w.to_multiset() == reps@.to_multiset() && r@.len() == (if k
            <= reps@.len() {
            k as int
        } else {
            reps@.len() as int
        }) && forall|j: int| 0 <= j < r@.len() ==> #[trigger] r@[j] == w[j].1);
    }
    r
}

/// The distinct values of `xs`, in increasing order.
pub fn sorted_unique_indices(xs: &Vec<usize>) -> (r: Vec<usize>)
    ensures
        strictly_increasing(r@),
        r@.to_set() == xs@.to_set(),
{
    let mut out: Vec<usize> = Vec::new();
    let mut i: usize = 0;
    proof {
        assert(xs@.take(0) =~= Seq::<usize>::empty());
        assert(out@.to_set() =~= xs@.take(0).to_set());
    }
    while i < xs.len()
        invariant
            i <= xs.len(),
            strictly_increasing(out@),
            out@.to_set() == xs@.take(i as int).to_set(),
        decreases xs.len() - i,
    {
        let x = xs[i];
        let mut pos: usize = 0;
        while pos < out.len() && out[pos] < x
            invariant
                pos <= out.len(),
                forall|m: int| 0 <= m < pos ==> #[trigger] out@[m] < x,
            decreases out.len() - pos,
        {
            pos = pos + 1;
        }
        let ghost before = out@;
        let dup = pos < out.len() && out[pos] == x;
        if !dup {
            out.insert(pos, x);
            proof {
                before.insert_ensures(pos as int, x);
                assert forall|a: int, b: int| 0 <= a < b < out@.len() implies #[trigger] out@[a]
                    < #[trigger] out@[b] by {
                    if a < pos && b < pos {
                        assert(out@[a] == before[a] && out@[b] == before[b]);
                    } else if a < pos && b == pos {
                        assert(out@[a] == before[a]);
                    } else if a < pos && b > pos {
                        assert(out@[a] == before[a] && out@[b] == before[b - 1]);
                    } else if a == pos {
                        assert(out@[b] == before[b - 1]);
                        assert(pos < before.len() ==> !(before[pos as int] < x));
                        assert(pos < before.len() ==> before[pos as int] != x);
                    } else {
                        assert(out@[a] == before[a - 1] && out@[b] == before[b - 1]);
                    }
                }
            }
        }
        proof {
            assert(xs@.take(i + 1) =~= xs@.take(i as int).push(x));
            assert forall|a: usize| #[trigger] out@.contains(a) implies (before.contains(a) || a
                == x) by {
                if !dup {
                    before.insert_ensures(pos as int, x);
                    let j = choose|j: int| 0 <= j < out@.len() && out@[j] == a;
                    if j < pos {
                        assert(before[j] == a);
                    } else if j > pos {
                        assert(before[j - 1] == a);
                    }
                }
            }
            assert forall|a: usize| before.contains(a) || a == x implies #[trigger] out@.contains(
                a,
            ) by {
                if !dup {
                    before.insert_ensures(pos as int, x);
                    if before.contains(a) {
                        let j = choose|j: int| 0 <= j < before.len() && before[j] == a;
                        if j < pos {
                            assert(out@[j] == a);
                        } else {
                            assert(out@[j + 1] == a);
                        }
                    } else {
                        assert(out@[pos as int] == x);
                    }
                } else {
                    if a == x {
                        assert(before[pos as int] == x);
                    }
                }
            }
            assert forall|a: usize| #[trigger] xs@.take(i + 1).contains(a) implies (xs@.take(
                i as int,
            ).contains(a) || a == x) by {
                let j = choose|j: int| 0 <= j < xs@.take(i + 1).len() && #[trigger] xs@.take(
                    i + 1,
                )[j] == a;
                if j < i {
                    assert(xs@.take(i as int)[j] == a);
                }
            }
            assert forall|a: usize| xs@.take(i as int).contains(a) || a == x implies #[trigger] xs@
                .take(i + 1).contains(a) by {
                if xs@.take(i as int).contains(a) {
                    let j = choose|j: int|
                        0 <= j < xs@.take(i as int).len() && xs@.take(i as int)[j] == a;
                    assert(xs@.take(i + 1)[j] == a);
                } else {
                    assert(xs@.take(i + 1)[i as int] == a);
                }
            }
            assert forall|a: usize| #[trigger] out@.to_set().contains(a) <==> xs@.take(
                i + 1,
            ).to_set().contains(a) by {
                assert(out@.to_set().contains(a) == out@.contains(a));
                assert(xs@.take(i + 1).to_set().contains(a) == xs@.take(i + 1).contains(a));
                assert(before.to_set().contains(a) == before.contains(a));
                assert(xs@.take(i as int).to_set().contains(a) == xs@.take(i as int).contains(a));
            }
            assert(out@.to_set() =~= xs@.take(i + 1).to_set());
        }
        i = i + 1;
    }
    proof {
        assert(xs@.take(xs@.len() as int) =~= xs@);
    }
    out
}

/// The chunks at the given indices, in index order.
pub fn chunks_by_indices(chunks: &Vec<String>, idx: &Vec<usize>) -> (r: Vec<String>)
    requires
        forall|i: int| 0 <= i < idx@.len() ==> #[trigger] idx@[i] < chunks@.len(),
    ensures
        r@.len() == idx@.len(),
        forall|i: int| 0 <= i < idx@.len() ==> #[trigger] r@[i] == chunks@[idx@[i] as int],
{
    let mut out: Vec<String> = Vec::new();
    let mut i: usize = 0;
    while i < idx.len()
        invariant
            forall|j: int| 0 <= j < idx@.len() ==> #[trigger] idx@[j] < chunks@.len(),
            i <= idx.len(),
            out@.len() == i,
            forall|j: int| 0 <= j < i ==> #[trigger] out@[j] == chunks@[idx@[j] as int],
        decreases idx.len() - i,
    {
        out.push(chunks[idx[i]].clone());
        i = i + 1;
    }
    out
}

/// Selects the representative chunks: all of them when the document has at
/// most `k` chunks, otherwise the centroid-nearest chunk of each cluster,
/// de-duplicated and in original document order.
pub fn extract_key_chunks(chunks: &Vec<String>, nearest: &Vec<usize>, k: usize) -> (r: Vec<String>)
    requires
        forall|i: int| 0 <= i < nearest@.len() ==> #[trigger] nearest@[i] < chunks@.len(),
    ensures
        chunks@.len() <= k ==> r@ == chunks@,
        chunks@.len() > k ==> exists|ix: Seq<usize>|
            {
                &&& strictly_increasing(ix)
                &&& ix.to_set() == nearest@.to_set()
                &&& r@.len() == ix.len()
                &&& forall|i: int| 0 <= i < ix.len() ==> #[trigger] ix[i] < chunks@.len()
                &&& forall|i: int| 0 <= i < r@.len() ==> #[trigger] r@[i] == chunks@[ix[i] as int]
            },
        chunks@.len() > k && distinct_indices(nearest@) ==> r@.len() == nearest@.len(),
{
    if chunks.len() <= k {
        let mut all: Vec<String> = Vec::new();
        let mut i: usize = 0;
        while i < chunks.len()
            invariant
                i <= chunks.len(),
                all@.len() == i,
                forall|j: int| 0 <= j < i ==> #[trigger] all@[j] == chunks@[j],
            decreases chunks.len() - i,
        {
            all.push(chunks[i].clone());
            i = i + 1;
        }
        proof {
            assert(all@ =~= chunks@);
        }
        all
    } else {
        let idx = sorted_unique_indices(nearest);
        proof {
            assert forall|i: int| 0 <= i < idx@.len() implies #[trigger] idx@[i]
                < chunks@.len() by {
                assert(idx@.to_set().contains(idx@[i]));
                assert(nearest@.to_set().contains(idx@[i]));
                let j = choose|j: int| 0 <= j < nearest@.len() && nearest@[j] == idx@[i];
            }
        }
        let r = chunks_by_indices(chunks, &idx);
        proof {
            let ghost ix = idx@;
            assert(strictly_increasing(ix) && ix.to_set() == nearest@.to_set() && r@.len()
                == ix.len() && (forall|i: int| 0 <= i < ix.len() ==> #[trigger] ix[i]
                < chunks@.len()) && (forall|i: int|
                0 <= i < r@.len() ==> #[trigger] r@[i] == chunks@[ix[i] as int]));
            if distinct_indices(nearest@) {
                lemma_selection_cardinality(ix, nearest@);
            }
        }
        r
    }
}

/// Order law: whatever indices the clustering nominates, the selected
/// chunks form a subsequence of the document's chunks.
pub proof fn lemma_selection_is_subsequence(
    chunks: Seq<String>,
    r: Seq<String>,
    ix: Seq<usize>,
)
    requires
        strictly_increasing(ix),
        r.len() == ix.len(),
        forall|i: int| 0 <= i < ix.len() ==> #[trigger] ix[i] < chunks.len(),
        forall|i: int| 0 <= i < r.len() ==> #[trigger] r[i] == chunks[ix[i] as int],
    ensures
        is_subsequence_of(r, chunks),
{
}

/// Cardinality law: when the cluster representatives are pairwise distinct,
/// the selection keeps exactly one chunk per cluster.
pub proof fn lemma_selection_cardinality(ix: Seq<usize>, nearest: Seq<usize>)
    requires
        strictly_increasing(ix),
        ix.to_set() == nearest.to_set(),
        distinct_indices(nearest),
    ensures
        ix.len() == nearest.len(),
{
    assert(ix.no_duplicates());
    assert(nearest.no_duplicates());
    ix.unique_seq_to_set();
    nearest.unique_seq_to_set();
}

} // verus!
