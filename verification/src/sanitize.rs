//! Filename sanitisation.
//!
//! The stem a language model proposes is reduced to a safe filename: ASCII
//! letters, digits and hyphens pass through, every other character becomes an
//! underscore, runs of underscores collapse to one, leading and trailing
//! underscores are trimmed, an empty result falls back to a fixed name, and
//! the stem is capped at 200 codepoints.  `lemma_sanitize_idempotent` states
//! the fixed-point law.

use vstd::prelude::*;

use crate::fmt_util::string_from_chars;

verus! {

/// The cap on a sanitised stem's length, in codepoints.
pub const MAX_STEM_LEN: usize = 200;

/// A character the sanitiser keeps as itself.
pub open spec fn keep_char(c: char) -> bool {
    ('a' <= c && c <= 'z') || ('A' <= c && c <= 'Z') || ('0' <= c && c <= '9') || c == '-'
}

/// A character that may appear in a sanitised stem.
pub open spec fn stem_char(c: char) -> bool {
    keep_char(c) || c == '_'
}

/// The sanitiser's running state: the stem emitted so far and whether an
/// underscore is pending.  Underscores are emitted only when a kept
/// character follows, so runs collapse and edges are trimmed for free.
pub open spec fn san_step(st: (Seq<char>, bool), c: char) -> (Seq<char>, bool) {
    let (out, pend) = st;
    if keep_char(c) {
        if pend {
            (out + seq!['_', c], false)
        } else {
            (out.push(c), false)
        }
    } else {
        (out, out.len() > 0)
    }
}

/// Folds the sanitiser over a whole name.
pub open spec fn san_fold(s: Seq<char>) -> (Seq<char>, bool)
    decreases s.len(),
{
    if s.len() == 0 {
        (Seq::empty(), false)
    } else {
        san_step(san_fold(s.drop_last()), s.last())
    }
}

/// Drops trailing underscores.
pub open spec fn rtrim_us(s: Seq<char>) -> Seq<char>
    decreases s.len(),
{
    if s.len() > 0 && s.last() == '_' {
        rtrim_us(s.drop_last())
    } else {
        s
    }
}

/// The fallback used when nothing of the proposed name survives.
pub open spec fn fallback_name() -> Seq<char> {
    "suggested_filename"@
}

/// What sanitisation returns for a name.
pub open spec fn sanitize_spec(s: Seq<char>) -> Seq<char> {
    let r = san_fold(s).0;
    let capped = if r.len() <= MAX_STEM_LEN as int {
        r
    } else {
        r.take(MAX_STEM_LEN as int)
    };
    let trimmed = rtrim_us(capped);
    if trimmed.len() == 0 {
        fallback_name()
    } else {
        trimmed
    }
}

/// A sanitised stem: nonempty, at most 200 codepoints, only letters, digits,
/// hyphens and underscores, no run of two underscores, and no underscore at
/// either edge.
pub open spec fn is_sanitized(t: Seq<char>) -> bool {
    &&& 1 <= t.len() <= MAX_STEM_LEN as int
    &&& forall|i: int| 0 <= i < t.len() ==> stem_char(#[trigger] t[i])
    &&& t[0] != '_'
    &&& t.last() != '_'
    &&& forall|i: int| 0 <= i < t.len() - 1 ==> !(#[trigger] t[i] == '_' && t[i + 1] == '_')
}

/// A well-formed sanitiser state: the emitted stem has no underscore at
/// either edge and no doubled underscore, and an underscore is pending only
/// once something was emitted.
pub open spec fn san_good(st: (Seq<char>, bool)) -> bool {
    let (out, pend) = st;
    &&& forall|i: int| 0 <= i < out.len() ==> stem_char(#[trigger] out[i])
    &&& out.len() > 0 ==> out[0] != '_' && out.last() != '_'
    &&& forall|i: int| 0 <= i < out.len() - 1 ==> !(#[trigger] out[i] == '_' && out[i + 1] == '_')
    &&& pend ==> out.len() > 0
}

proof fn lemma_san_step_good(st: (Seq<char>, bool), c: char)
    requires
        san_good(st),
    ensures
        san_good(san_step(st, c)),
{
    let (out, pend) = st;
    if keep_char(c) {
        let out2 = san_step(st, c).0;
        assert(c != '_');
        if pend {
            assert(out2 =~= out + seq!['_', c]);
            assert(out2.last() == c);
            assert(out2[0] == out[0]);
            assert forall|i: int|
                0 <= i < out2.len() - 1 implies !(#[trigger] out2[i] == '_' && out2[i + 1]
                == '_') by {
                if i < out.len() - 1 {
                    assert(out2[i] == out[i] && out2[i + 1] == out[i + 1]);
                } else if i == out.len() - 1 {
                    assert(out2[i] == out.last());
                } else if i == out.len() {
                    assert(out2[i + 1] == c);
                }
            }
        } else {
            assert(out2 =~= out.push(c));
            assert forall|i: int|
                0 <= i < out2.len() - 1 implies !(#[trigger] out2[i] == '_' && out2[i + 1]
                == '_') by {
                if i == out.len() - 1 {
                    assert(out2[i + 1] == c);
                }
            }
            if out.len() == 0 {
                assert(out2[0] == c);
            }
        }
    }
}

proof fn lemma_san_fold_good(s: Seq<char>)
    ensures
        san_good(san_fold(s)),
    decreases s.len(),
{
    if s.len() > 0 {
        lemma_san_fold_good(s.drop_last());
        lemma_san_step_good(san_fold(s.drop_last()), s.last());
    }
}

proof fn lemma_rtrim_props(s: Seq<char>)
    ensures
        rtrim_us(s).len() <= s.len(),
        rtrim_us(s) =~= s.take(rtrim_us(s).len() as int),
        rtrim_us(s).len() > 0 ==> rtrim_us(s).last() != '_',
    decreases s.len(),
{
    if s.len() > 0 && s.last() == '_' {
        lemma_rtrim_props(s.drop_last());
        assert(s.drop_last() =~= s.take(s.len() - 1));
        assert(rtrim_us(s.drop_last()) =~= s.take(rtrim_us(s).len() as int));
    } else {
        assert(s =~= s.take(s.len() as int));
    }
}

/// The fallback stem is itself sanitised.
proof fn lemma_fallback_sanitized()
    ensures
        is_sanitized(fallback_name()),
{
    let t = fallback_name();
    reveal_strlit("suggested_filename");
    assert(t.len() == 18);
    assert forall|i: int| 0 <= i < t.len() implies stem_char(#[trigger] t[i]) by {
        assert(stem_char(t[0]));
        assert(stem_char(t[1]));
        assert(stem_char(t[2]));
        assert(stem_char(t[3]));
        assert(stem_char(t[4]));
        assert(stem_char(t[5]));
        assert(stem_char(t[6]));
        assert(stem_char(t[7]));
        assert(stem_char(t[8]));
        assert(stem_char(t[9]));
        assert(stem_char(t[10]));
        assert(stem_char(t[11]));
        assert(stem_char(t[12]));
        assert(stem_char(t[13]));
        assert(stem_char(t[14]));
        assert(stem_char(t[15]));
        assert(stem_char(t[16]));
        assert(stem_char(t[17]));
    }
}

/// Sanitisation always yields a sanitised stem.
pub proof fn lemma_sanitize_wf(s: Seq<char>)
    ensures
        is_sanitized(sanitize_spec(s)),
{
    lemma_san_fold_good(s);
    let r = san_fold(s).0;
    let capped = if r.len() <= MAX_STEM_LEN as int {
        r
    } else {
        r.take(MAX_STEM_LEN as int)
    };
    let trimmed = rtrim_us(capped);
    lemma_rtrim_props(capped);
    if trimmed.len() == 0 {
        lemma_fallback_sanitized();
    } else {
        assert(trimmed =~= capped.take(trimmed.len() as int));
        assert(trimmed[0] == r[0]);
        assert forall|i: int| 0 <= i < trimmed.len() implies stem_char(#[trigger] trimmed[i]) by {
            assert(trimmed[i] == r[i]);
        }
        assert forall|i: int|
            0 <= i < trimmed.len() - 1 implies !(#[trigger] trimmed[i] == '_' && trimmed[i + 1]
            == '_') by {
            assert(trimmed[i] == r[i] && trimmed[i + 1] == r[i + 1]);
        }
    }
}

/// On a prefix of a sanitised stem, the sanitiser's state is the prefix with
/// a trailing underscore, if any, moved into the pending flag.
proof fn lemma_san_prefix(t: Seq<char>, i: int)
    requires
        is_sanitized(t),
        0 <= i <= t.len(),
    ensures
        ({
            let p = t.take(i);
            let pend = p.len() > 0 && p.last() == '_';
            san_fold(p) == (p.take(p.len() - (if pend {
                1int
            } else {
                0int
            })), pend)
        }),
    decreases i,
{
    let p = t.take(i);
    if i == 0 {
        assert(p =~= Seq::<char>::empty());
        assert(p.take(0) =~= Seq::<char>::empty());
    } else {
        let q = t.take(i - 1);
        lemma_san_prefix(t, i - 1);
        assert(p.drop_last() =~= q);
        assert(p.last() == t[i - 1]);
        assert(san_fold(p) == san_step(san_fold(q), t[i - 1]));
        let c = t[i - 1];
        assert(stem_char(c));
        if i >= 2 {
            assert(q.last() == t[i - 2]);
        }
        if c == '_' {
            assert(i >= 2);
            assert(t[i - 2] != '_');
            assert(!(q.len() > 0 && q.last() == '_'));
            assert(san_fold(q) == (q.take(q.len() as int), false));
            assert(q.take(q.len() as int) =~= q);
            assert(q.len() > 0);
            assert(san_fold(p) == (q, true));
            assert(p.take(p.len() - 1) =~= q);
        } else {
            assert(keep_char(c));
            if q.len() > 0 && q.last() == '_' {
                assert(san_fold(q) == (q.take(q.len() - 1), true));
                assert(q.take(q.len() - 1) + seq!['_', c] =~= p);
            } else {
                assert(san_fold(q) == (q.take(q.len() as int), false));
                assert(q.take(q.len() as int) =~= q);
                assert(q.push(c) =~= p);
            }
            assert(p.take(p.len() as int) =~= p);
        }
    }
}

/// Sanitisation is the identity on a stem that is already sanitised.
pub proof fn lemma_sanitize_of_sanitized(t: Seq<char>)
    requires
        is_sanitized(t),
    ensures
        sanitize_spec(t) == t,
{
    lemma_san_prefix(t, t.len() as int);
    assert(t.take(t.len() as int) =~= t);
    assert(san_fold(t) == (t.take(t.len() as int), false));
    let r = san_fold(t).0;
    assert(r == t.take(t.len() as int));
    assert(r =~= t);
    assert(rtrim_us(r) == r);
}

/// Sanitisation is idempotent: every output is a fixed point.
pub proof fn lemma_sanitize_idempotent(s: Seq<char>)
    ensures
        sanitize_spec(sanitize_spec(s)) == sanitize_spec(s),
{
    lemma_sanitize_wf(s);
    lemma_sanitize_of_sanitized(sanitize_spec(s));
}

/// Reduces a proposed filename stem to a safe one: letters, digits and
/// hyphens survive, everything else becomes an underscore, underscore runs
/// collapse, edges are trimmed, an empty result becomes the fixed fallback,
/// and the stem is capped at 200 codepoints.
pub fn sanitize_filename(name: &str) -> (r: String)
    ensures
        r@ == sanitize_spec(name@),
        is_sanitized(r@),
{
    let n = name.unicode_len();
    let mut out: Vec<char> = Vec::new();
    let mut pend: bool = false;
    let mut i: usize = 0;
    while i < n
        invariant
            n == name@.len(),
            i <= n,
            (out@, pend) == san_fold(name@.take(i as int)),
        decreases n - i,
    {
        let c = name.get_char(i);
        proof {
            assert(name@.take(i + 1).drop_last() =~= name@.take(i as int));
            assert(name@.take(i + 1).last() == name@[i as int]);
        }
        let kept = ('a' <= c && c <= 'z') || ('A' <= c && c <= 'Z') || ('0' <= c && c <= '9') || c
            == '-';
        if kept {
            if pend {
                out.push('_');
            }
            out.push(c);
            pend = false;
            proof {
                let st = san_fold(name@.take(i as int));
                if st.1 {
                    assert(out@ =~= st.0 + seq!['_', c]);
                } else {
                    assert(out@ =~= st.0.push(c));
                }
            }
        } else {
            pend = out.len() > 0;
        }
        i = i + 1;
    }
    proof {
        assert(name@.take(n as int) =~= name@);
    }
    if out.len() > MAX_STEM_LEN {
        out.truncate(MAX_STEM_LEN);
        proof {
            assert(out@ =~= san_fold(name@).0.take(MAX_STEM_LEN as int));
        }
    }
    while out.len() > 0 && out[out.len() - 1] == '_'
        invariant
            rtrim_us(out@) == rtrim_us(
                if san_fold(name@).0.len() <= MAX_STEM_LEN as int {
                    san_fold(name@).0
                } else {
                    san_fold(name@).0.take(MAX_STEM_LEN as int)
                },
            ),
        decreases out.len(),
    {
        proof {
            assert(out@.last() == '_');
            assert(out@.drop_last() =~= out@.take(out@.len() - 1));
        }
        out.pop();
    }
    proof {
        assert(rtrim_us(out@) == out@);
        lemma_sanitize_wf(name@);
    }
    if out.len() == 0 {
        let r = "suggested_filename".to_owned();
        proof {
            assert(r@ == fallback_name());
        }
        r
    } else {
        string_from_chars(&out)
    }
}

} // verus!
