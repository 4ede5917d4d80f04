//! Lexical search ranking over the chunk table.
//!
//! A query is split into terms at the caller's edge; the score of a row is
//! how many terms occur in its text, compared without regard to ASCII
//! case.  `search_rows` returns exactly the matching rows up to the
//! caller's limit, best scores first, each from a distinct input row, and
//! no row it leaves out scores more than the worst it returns.  A hybrid
//! ranking that also weighs vector distance needs the embedding payloads
//! and stays outside the verified core.

use vstd::prelude::*;

use crate::fmt_util::str_to_chars;
use crate::paths::{lower_ascii, lower_seq};
use crate::store::FileChunkSchema;

verus! {

/// Whether `needle` occurs contiguously in `hay`.
pub open spec fn contains_sub(hay: Seq<char>, needle: Seq<char>) -> bool {
    exists|k: int|
        0 <= k <= hay.len() - needle.len() && #[trigger] hay.subrange(k, k + needle.len())
            == needle
}

/// Whether the term occurs in the text, ASCII-case-insensitively.
pub open spec fn term_hits(term: Seq<char>, text: Seq<char>) -> bool {
    contains_sub(lower_seq(text), lower_seq(term))
}

/// How many of the terms occur in the text.
pub open spec fn score_spec(terms: Seq<Seq<char>>, text: Seq<char>) -> int
    decreases terms.len(),
{
    if terms.len() == 0 {
        0
    } else {
        score_spec(terms.drop_last(), text) + if term_hits(terms.last(), text) {
            1int
        } else {
            0int
        }
    }
}

/// Whether `needle` matches `hay` at offset `k`.
fn match_at(hay: &Vec<char>, needle: &Vec<char>, k: usize) -> (r: bool)
    requires
        k + needle@.len() <= hay@.len(),
    ensures
        r == (hay@.subrange(k as int, k + needle@.len()) == needle@),
{
    let nn = needle.len();
    let nh = hay.len();
    let mut t: usize = 0;
    while t < nn
        invariant
            nn == needle@.len(),
            nh == hay@.len(),
            k + nn <= nh,
            t <= nn,
            forall|u: int| 0 <= u < t ==> hay@[k + u] == needle@[u],
        decreases nn - t,
    {
        if hay[k + t] != needle[t] {
            proof {
                assert(hay@.subrange(k as int, k + nn as int)[t as int] == hay@[k + t]);
            }
            return false;
        }
        t = t + 1;
    }
    proof {
        assert(hay@.subrange(k as int, k + nn as int) =~= needle@);
    }
    true
}

/// Whether `needle` occurs contiguously in `hay`.
fn contains_chars(hay: &Vec<char>, needle: &Vec<char>) -> (r: bool)
    ensures
        r == contains_sub(hay@, needle@),
{
    let nh = hay.len();
    let nn = needle.len();
    if nn > nh {
        return false;
    }
    if nn == 0 {
        proof {
            assert(hay@.subrange(0, 0 + needle@.len() as int) =~= needle@);
            assert(contains_sub(hay@, needle@));
        }
        return true;
    }
    let mut k: usize = 0;
    while k <= nh - nn
        invariant
            1 <= nn <= nh,
            nh == hay@.len(),
            nn == needle@.len(),
            k <= nh - nn + 1,
            forall|m: int| 0 <= m < k ==> #[trigger] hay@.subrange(m, m + nn as int) != needle@,
        decreases nh - nn - k + 1,
    {
        if match_at(hay, needle, k) {
            proof {
                assert(contains_sub(hay@, needle@)) by {
                    assert(hay@.subrange(k as int, k + nn as int) == needle@);
                }
            }
            return true;
        }
        k = k + 1;
    }
    false
}

/// Scores one text against the terms: how many occur, ASCII case aside.
pub fn score_of(terms: &Vec<String>, text: &str) -> (r: usize)
    ensures
        r == score_spec(terms.deep_view(), text@),
        r <= terms@.len(),
{
    let low = lower_ascii(text);
    let hay = str_to_chars(low.as_str());
    let mut r: usize = 0;
    let mut i: usize = 0;
    proof {
        assert(terms.deep_view().take(0) =~= Seq::<Seq<char>>::empty());
    }
    while i < terms.len()
        invariant
            hay@ == lower_seq(text@),
            i <= terms@.len(),
            r == score_spec(terms.deep_view().take(i as int), text@),
            r <= i,
        decreases terms@.len() - i,
    {
        proof {
            assert(terms.deep_view().take(i + 1).drop_last() =~= terms.deep_view().take(i as int));
            assert(terms.deep_view().take(i + 1).last() == terms.deep_view()[i as int]);
        }
        let lt = lower_ascii(terms[i].as_str());
        let needle = str_to_chars(lt.as_str());
        if contains_chars(&hay, &needle) {
            r = r + 1;
        }
        i = i + 1;
    }
    proof {
        assert(terms.deep_view().take(terms.deep_view().len() as int) =~= terms.deep_view());
    }
    r
}

/// How many rows match at least one term.
pub open spec fn match_count(terms: Seq<Seq<char>>, rows: Seq<FileChunkSchema>) -> int
    decreases rows.len(),
{
    if rows.len() == 0 {
        0
    } else {
        match_count(terms, rows.drop_last()) + if score_spec(terms, rows.last().text@) > 0 {
            1int
        } else {
            0int
        }
    }
}

/// A ranking certificate: `ix` names, position by position, the distinct
/// source row each result came from, and every matching row left out
/// scores no more than the worst returned row.
pub open spec fn ranking_of(
    terms: Seq<Seq<char>>,
    rows: Seq<FileChunkSchema>,
    r: Seq<FileChunkSchema>,
    ix: Seq<int>,
) -> bool {
    &&& ix.len() == r.len()
    &&& forall|i: int|
        0 <= i < ix.len() ==> 0 <= #[trigger] ix[i] < rows.len() && r[i] == rows[ix[i]]
    &&& forall|a: int, b: int| 0 <= a < b < ix.len() ==> #[trigger] ix[a] != #[trigger] ix[b]
    &&& forall|j: int|
        0 <= j < rows.len() && score_spec(terms, (#[trigger] rows[j]).text@) > 0 && !ix.contains(j)
            && r.len() > 0 ==> score_spec(terms, rows[j].text@) <= score_spec(
            terms,
            r[r.len() - 1].text@,
        )
}

/// Ranks the rows against the query terms: exactly the matching rows come
/// back, capped at `limit`, best scores first, each from a distinct input
/// row, and nothing left out scores more than the worst returned row.
pub fn search_rows(rows: &Vec<FileChunkSchema>, terms: &Vec<String>, limit: usize) -> (r: Vec<
    FileChunkSchema,
>)
    ensures
        r@.len() == if limit as int <= match_count(terms.deep_view(), rows@) {
            limit as int
        } else {
            match_count(terms.deep_view(), rows@)
        },
        forall|i: int|
            0 <= i < r@.len() ==> score_spec(terms.deep_view(), (#[trigger] r@[i]).text@) > 0,
        forall|i: int, j: int|
            0 <= i < j < r@.len() ==> score_spec(terms.deep_view(), (#[trigger] r@[i]).text@)
                >= score_spec(terms.deep_view(), (#[trigger] r@[j]).text@),
        exists|ix: Seq<int>| ranking_of(terms.deep_view(), rows@, r@, ix),
{
    let ghost tv = terms.deep_view();
    let mut scored: Vec<(usize, FileChunkSchema)> = Vec::new();
    let ghost mut ixs = Seq::<int>::empty();
    let mut i: usize = 0;
    proof {
        assert(rows@.take(0) =~= Seq::<FileChunkSchema>::empty());
    }
    while i < rows.len()
        invariant
            tv == terms.deep_view(),
            i <= rows@.len(),
            scored@.len() == ixs.len(),
            scored@.len() == match_count(tv, rows@.take(i as int)),
            forall|m: int|
                0 <= m < ixs.len() ==> {
                    &&& 0 <= #[trigger] ixs[m] < i
                    &&& scored@[m].1 == rows@[ixs[m]]
                    &&& scored@[m].0 == score_spec(tv, rows@[ixs[m]].text@)
                    &&& scored@[m].0 > 0
                },
            forall|a: int, b: int| 0 <= a < b < ixs.len() ==> #[trigger] ixs[a] != #[trigger] ixs[b],
            forall|j: int|
                0 <= j < i && score_spec(tv, (#[trigger] rows@[j]).text@) > 0 ==> ixs.contains(j),
            sorted_scores(scored@),
        decreases rows@.len() - i,
    {
        proof {
            assert(rows@.take(i + 1).drop_last() =~= rows@.take(i as int));
            assert(rows@.take(i + 1).last() == rows@[i as int]);
        }
        let s = score_of(terms, rows[i].text.as_str());
        if s > 0 {
            let entry = (s, rows[i].duplicate());
            let mut pos: usize = 0;
            while pos < scored.len() && scored[pos].0 >= s
                invariant
                    pos <= scored.len(),
                    forall|m: int| 0 <= m < pos ==> (#[trigger] scored@[m]).0 >= s,
                decreases scored.len() - pos,
            {
                pos = pos + 1;
            }
            let ghost before = scored@;
            let ghost before_ix = ixs;
            scored.insert(pos, entry);
            proof {
                ixs = before_ix.insert(pos as int, i as int);
                before.insert_ensures(pos as int, entry);
                before_ix.insert_ensures(pos as int, i as int);
                assert forall|m: int|
                    0 <= m < ixs.len() implies {
                    &&& 0 <= #[trigger] ixs[m] < i + 1
                    &&& scored@[m].1 == rows@[ixs[m]]
                    &&& scored@[m].0 == score_spec(tv, rows@[ixs[m]].text@)
                    &&& scored@[m].0 > 0
                } by {
                    if m < pos {
                        assert(scored@[m] == before[m] && ixs[m] == before_ix[m]);
                    } else if m == pos {
                        assert(scored@[m] == entry && ixs[m] == i);
                    } else {
                        assert(scored@[m] == before[m - 1] && ixs[m] == before_ix[m - 1]);
                    }
                }
                assert forall|a: int, b: int|
                    0 <= a < b < ixs.len() implies #[trigger] ixs[a] != #[trigger] ixs[b] by {
                    if a < pos && b < pos {
                        assert(ixs[a] == before_ix[a] && ixs[b] == before_ix[b]);
                    } else if a < pos && b == pos {
                        assert(ixs[a] == before_ix[a] && ixs[b] == i);
                        assert(before_ix[a] < i);
                    } else if a < pos && b > pos {
                        assert(ixs[a] == before_ix[a] && ixs[b] == before_ix[b - 1]);
                    } else if a == pos {
                        assert(ixs[a] == i && ixs[b] == before_ix[b - 1]);
                        assert(before_ix[b - 1] < i);
                    } else {
                        assert(ixs[a] == before_ix[a - 1] && ixs[b] == before_ix[b - 1]);
                    }
                }
                assert forall|j: int|
                    0 <= j < i + 1 && score_spec(tv, (#[trigger] rows@[j]).text@)
                    > 0 implies ixs.contains(j) by {
                    if j == i {
                        assert(ixs[pos as int] == i);
                    } else {
                        assert(before_ix.contains(j));
                        let m = choose|m: int| 0 <= m < before_ix.len() && before_ix[m] == j;
                        if m < pos {
                            assert(ixs[m] == j);
                        } else {
                            assert(ixs[m + 1] == j);
                        }
                    }
                }
                assert forall|a: int, b: int|
                    0 <= a < b < scored@.len() implies (#[trigger] scored@[a]).0 >= (
                #[trigger] scored@[b]).0 by {
                    if a < pos && b < pos {
                        assert(scored@[a] == before[a] && scored@[b] == before[b]);
                    } else if a < pos && b == pos {
                        assert(scored@[a] == before[a]);
                    } else if a < pos && b > pos {
                        assert(scored@[a] == before[a] && scored@[b] == before[b - 1]);
                    } else if a == pos {
                        assert(scored@[b] == before[b - 1]);
                        assert(pos < before.len() ==> !(before[pos as int].0 >= s));
                    } else {
                        assert(scored@[a] == before[a - 1] && scored@[b] == before[b - 1]);
                    }
                }
            }
        }
        i = i + 1;
    }
    proof {
        assert(rows@.take(rows@.len() as int) =~= rows@);
    }
    let ghost total = match_count(tv, rows@);
    let ghost truncated = scored@.len() > limit;
    if scored.len() > limit {
        let ghost full = scored@;
        let ghost full_ix = ixs;
        scored.truncate(limit);
        proof {
            ixs = full_ix.take(limit as int);
            assert(scored@ =~= full.take(limit as int));
            assert forall|m: int|
                0 <= m < ixs.len() implies {
                &&& 0 <= #[trigger] ixs[m] < rows@.len()
                &&& scored@[m].1 == rows@[ixs[m]]
                &&& scored@[m].0 == score_spec(tv, rows@[ixs[m]].text@)
                &&& scored@[m].0 > 0
            } by {
                assert(scored@[m] == full[m] && ixs[m] == full_ix[m]);
            }
            assert forall|a: int, b: int|
                0 <= a < b < ixs.len() implies #[trigger] ixs[a] != #[trigger] ixs[b] by {
                assert(ixs[a] == full_ix[a] && ixs[b] == full_ix[b]);
            }
            assert forall|a: int, b: int|
                0 <= a < b < scored@.len() implies (#[trigger] scored@[a]).0 >= (
            #[trigger] scored@[b]).0 by {
                assert(scored@[a] == full[a] && scored@[b] == full[b]);
            }
            // every matching row cut off by the limit scores no more than
            // the worst kept row
            if limit > 0 {
                assert forall|j: int|
                    0 <= j < rows@.len() && score_spec(tv, (#[trigger] rows@[j]).text@) > 0
                        && !ixs.contains(j) && scored@.len() > 0 implies score_spec(
                    tv,
                    rows@[j].text@,
                ) <= scored@[scored@.len() - 1].0 by {
                    assert(full_ix.contains(j));
                    let m = choose|m: int| 0 <= m < full_ix.len() && full_ix[m] == j;
                    if m < limit {
                        assert(ixs[m] == j);
                    } else {
                        assert(full[m].1 == rows@[j]);
                        assert(full[m].0 == score_spec(tv, rows@[j].text@));
                        assert(sorted_scores(full));
                        assert(0 <= limit - 1 < m < full.len());
                        assert(full[limit - 1].0 >= full[m].0);
                        assert(scored@[limit - 1] == full[limit - 1]);
                    }
                }
            }
            assert(staged_ranking(tv, rows@, scored@, ixs));
        }
    } else {
        proof {
            // nothing was cut: every matching row is represented
            assert forall|j: int|
                0 <= j < rows@.len() && score_spec(tv, (#[trigger] rows@[j]).text@) > 0
                    && !ixs.contains(j) && scored@.len() > 0 implies score_spec(
                tv,
                rows@[j].text@,
            ) <= scored@[scored@.len() - 1].0 by {
                assert(ixs.contains(j));
            }
            assert(staged_ranking(tv, rows@, scored@, ixs));
        }
    }
    let ghost kept = scored@;
    let ghost kept_ix = ixs;
    let mut out: Vec<FileChunkSchema> = Vec::new();
    let mut m: usize = 0;
    while m < scored.len()
        invariant
            tv == terms.deep_view(),
            scored@ == kept,
            ixs == kept_ix,
            staged_ranking(tv, rows@, kept, kept_ix),
            kept.len() == if limit as int <= total {
                limit as int
            } else {
                total
            },
            total == match_count(tv, rows@),
            m <= scored@.len(),
            out@.len() == m,
            forall|a: int| 0 <= a < m ==> #[trigger] out@[a] == scored@[a].1,
        decreases scored@.len() - m,
    {
        out.push(scored[m].1.duplicate());
        m = m + 1;
    }
    proof {
        assert forall|a: int|
            0 <= a < out@.len() implies score_spec(tv, (#[trigger] out@[a]).text@) > 0 by {
            assert(out@[a] == kept[a].1 && kept[a].1 == rows@[kept_ix[a]]);
        }
        assert forall|a: int, b: int|
            0 <= a < b < out@.len() implies score_spec(tv, (#[trigger] out@[a]).text@)
            >= score_spec(tv, (#[trigger] out@[b]).text@) by {
            assert(out@[a] == kept[a].1 && kept[a].1 == rows@[kept_ix[a]]);
            assert(out@[b] == kept[b].1 && kept[b].1 == rows@[kept_ix[b]]);
            assert(kept[a].0 >= kept[b].0);
        }
        assert(ranking_of(tv, rows@, out@, kept_ix)) by {
            assert forall|i2: int|
                0 <= i2 < kept_ix.len() implies 0 <= #[trigger] kept_ix[i2] < rows@.len()
                && out@[i2] == rows@[kept_ix[i2]] by {
                assert(out@[i2] == kept[i2].1);
            }
            assert forall|j: int|
                0 <= j < rows@.len() && score_spec(tv, (#[trigger] rows@[j]).text@) > 0
                    && !kept_ix.contains(j) && out@.len() > 0 implies score_spec(
                tv,
                rows@[j].text@,
            ) <= score_spec(tv, out@[out@.len() - 1].text@) by {
                let last = out@.len() - 1;
                assert(score_spec(tv, rows@[j].text@) <= kept[last].0);
                assert(out@[last] == kept[last].1 && kept[last].1 == rows@[kept_ix[last]]);
                assert(kept[last].0 == score_spec(tv, rows@[kept_ix[last]].text@));
            }
        }
    }
    out
}

/// A staged ranking: each scored row is a distinct input row paired with
/// its true, positive score, scores never increase, and every matching
/// row not staged scores at most the worst staged one.
spec fn staged_ranking(
    tv: Seq<Seq<char>>,
    rows: Seq<FileChunkSchema>,
    scored: Seq<(usize, FileChunkSchema)>,
    ixs: Seq<int>,
) -> bool {
    &&& scored.len() == ixs.len()
    &&& forall|m: int|
        0 <= m < ixs.len() ==> {
            &&& 0 <= #[trigger] ixs[m] < rows.len()
            &&& scored[m].1 == rows[ixs[m]]
            &&& scored[m].0 == score_spec(tv, rows[ixs[m]].text@)
            &&& scored[m].0 > 0
        }
    &&& forall|a: int, b: int| 0 <= a < b < ixs.len() ==> #[trigger] ixs[a] != #[trigger] ixs[b]
    &&& sorted_scores(scored)
    &&& forall|j: int|
        0 <= j < rows.len() && score_spec(tv, (#[trigger] rows[j]).text@) > 0 && !ixs.contains(j)
            && scored.len() > 0 ==> score_spec(tv, rows[j].text@) <= scored[scored.len() - 1].0
}

/// Scores never increase along the ranking.
pub open spec fn sorted_scores(s: Seq<(usize, FileChunkSchema)>) -> bool {
    forall|a: int, b: int| 0 <= a < b < s.len() ==> (#[trigger] s[a]).0 >= (#[trigger] s[b]).0
}

} // verus!
