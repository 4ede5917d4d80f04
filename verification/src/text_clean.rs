//! The text cleaner.
//!
//! Extracted document text is normalised before chunking: control characters
//! other than horizontal tab and line feed are dropped, runs of spaces and
//! tabs collapse to a single space, runs of blank lines collapse to one blank
//! line, every line is trimmed, and the whole text is trimmed.  Cleaning is
//! idempotent, which `lemma_clean_idempotent` states and proves.

use vstd::prelude::*;

use crate::fmt_util::{str_to_chars, string_from_chars};

verus! {

/// A control character: C0 controls, DEL, or C1 controls.
pub open spec fn is_ctrl(c: char) -> bool {
    (c as u32) < 0x20 || (0x7F <= c as u32 && c as u32 <= 0x9F)
}

/// Horizontal whitespace: space or tab.
pub open spec fn is_blank(c: char) -> bool {
    c == ' ' || c == '\t'
}

/// A character that may appear in cleaned text: line feed, or anything
/// that is not a control character.  (Tabs never survive cleaning: a run
/// of spaces and tabs becomes one space.)
pub open spec fn is_clean_char(c: char) -> bool {
    c == '\n' || !is_ctrl(c)
}

/// A content character: one that cleaning copies through unchanged.
pub open spec fn is_content(c: char) -> bool {
    !is_ctrl(c) && !is_blank(c)
}

/// The cleaner's running state: the cleaned text emitted so far, whether a
/// space is pending, and how many line feeds (capped at two) are pending.
/// Pending separators are emitted only when the next content character
/// arrives, so trailing whitespace is dropped for free.
pub open spec fn clean_step(st: (Seq<char>, bool, int), c: char) -> (Seq<char>, bool, int) {
    let (out, sp, nl) = st;
    if c == '\n' {
        (out, false, if nl < 2 { nl + 1 } else { 2int })
    } else if is_blank(c) {
        (out, sp || (nl == 0 && out.len() > 0), nl)
    } else if is_ctrl(c) {
        st
    } else {
        (out + clean_sep(st) + seq![c], false, 0int)
    }
}

/// The separator owed before the next content character.
pub open spec fn clean_sep(st: (Seq<char>, bool, int)) -> Seq<char> {
    let (out, sp, nl) = st;
    if out.len() == 0 {
        Seq::empty()
    } else if nl == 1 {
        seq!['\n']
    } else if nl >= 2 {
        seq!['\n', '\n']
    } else if sp {
        seq![' ']
    } else {
        Seq::empty()
    }
}

/// Folds the cleaner over a whole text.
pub open spec fn clean_fold(s: Seq<char>) -> (Seq<char>, bool, int)
    decreases s.len(),
{
    if s.len() == 0 {
        (Seq::empty(), false, 0int)
    } else {
        clean_step(clean_fold(s.drop_last()), s.last())
    }
}

/// What cleaning returns for a text.
pub open spec fn clean_spec(s: Seq<char>) -> Seq<char> {
    clean_fold(s).0
}

/// Cleaned text: only clean characters, no leading or trailing whitespace,
/// no run of two spaces, no space adjacent to a line feed, and no run of
/// three line feeds.
pub open spec fn is_clean(t: Seq<char>) -> bool {
    &&& forall|i: int| 0 <= i < t.len() ==> is_clean_char(#[trigger] t[i])
    &&& t.len() > 0 ==> t[0] != ' ' && t[0] != '\n'
    &&& t.len() > 0 ==> t.last() != ' ' && t.last() != '\n'
    &&& forall|i: int|
        0 <= i < t.len() - 1 ==> !(#[trigger] t[i] == ' ' && t[i + 1] == ' ')
    &&& forall|i: int|
        0 <= i < t.len() - 1 ==> !(#[trigger] t[i] == ' ' && t[i + 1] == '\n')
    &&& forall|i: int|
        0 <= i < t.len() - 1 ==> !(#[trigger] t[i] == '\n' && t[i + 1] == ' ')
    &&& forall|i: int|
        0 <= i < t.len() - 2 ==> !(#[trigger] t[i] == '\n' && t[i + 1] == '\n' && t[i + 2]
            == '\n')
}

/// A well-formed cleaner state: the emitted text is clean and ends with a
/// content character, a pending space arises only mid-line, and the pending
/// line-feed count is capped.
pub open spec fn good_state(st: (Seq<char>, bool, int)) -> bool {
    let (out, sp, nl) = st;
    &&& is_clean(out)
    &&& out.len() > 0 ==> is_content(out.last())
    &&& sp ==> nl == 0 && out.len() > 0
    &&& 0 <= nl <= 2
}

proof fn lemma_step_good(st: (Seq<char>, bool, int), c: char)
    requires
        good_state(st),
    ensures
        good_state(clean_step(st, c)),
{
    let (out, sp, nl) = st;
    if c == '\n' || is_blank(c) || is_ctrl(c) {
    } else {
        let sep = clean_sep(st);
        let out2 = out + sep + seq![c];
        assert(is_content(c));
        assert(sep.len() <= 2);
        assert forall|i: int| 0 <= i < out2.len() implies is_clean_char(#[trigger] out2[i]) by {
            if i < out.len() {
            } else if i < out.len() + sep.len() {
                assert(sep[i - out.len()] == ' ' || sep[i - out.len()] == '\n');
            } else {
                assert(out2[i] == c);
            }
        }
        assert(out2.last() == c);
        if out.len() == 0 {
            assert(out2 =~= seq![c]);
        } else {
            assert(out2[0] == out[0]);
            assert forall|i: int|
                0 <= i < out2.len() - 1 implies !(#[trigger] out2[i] == ' ' && out2[i + 1]
                == ' ') by {
                lemma_pair_cases(out, sep, c, i);
            }
            assert forall|i: int|
                0 <= i < out2.len() - 1 implies !(#[trigger] out2[i] == ' ' && out2[i + 1]
                == '\n') by {
                lemma_pair_cases(out, sep, c, i);
            }
            assert forall|i: int|
                0 <= i < out2.len() - 1 implies !(#[trigger] out2[i] == '\n' && out2[i + 1]
                == ' ') by {
                lemma_pair_cases(out, sep, c, i);
            }
            assert forall|i: int|
                0 <= i < out2.len() - 2 implies !(#[trigger] out2[i] == '\n' && out2[i + 1]
                == '\n' && out2[i + 2] == '\n') by {
                lemma_pair_cases(out, sep, c, i);
                lemma_pair_cases(out, sep, c, i + 1);
            }
        }
    }
}

/// Locates the characters at positions `i` and `i + 1` of `out + sep + [c]`
/// in their three parts, so that adjacency facts follow from the parts.
proof fn lemma_pair_cases(out: Seq<char>, sep: Seq<char>, c: char, i: int)
    requires
        is_clean(out),
        out.len() > 0 ==> is_content(out.last()),
        is_content(c),
        sep =~= Seq::<char>::empty() || sep =~= seq![' '] || sep =~= seq!['\n'] || sep =~= seq![
            '\n',
            '\n',
        ],
        0 <= i < out.len() + sep.len(),
    ensures
        ({
            let out2 = out + sep + seq![c];
            &&& !(out2[i] == ' ' && out2[i + 1] == ' ')
            &&& !(out2[i] == ' ' && out2[i + 1] == '\n')
            &&& !(out2[i] == '\n' && out2[i + 1] == ' ')
            &&& i + 2 < out2.len() ==> !(out2[i] == '\n' && out2[i + 1] == '\n' && out2[i + 2]
                == '\n')
        }),
{
    let out2 = out + sep + seq![c];
    if i < out.len() - 1 {
        assert(out2[i] == out[i] && out2[i + 1] == out[i + 1]);
        if i + 2 < out.len() {
            assert(out2[i + 2] == out[i + 2]);
        } else if i + 2 == out.len() {
            assert(out[i + 1] == out.last());
        }
    } else if i == out.len() - 1 {
        assert(out2[i] == out.last());
        assert(!(out2[i] == ' ' || out2[i] == '\n'));
    } else {
        let j = i - out.len();
        assert(out2[i] == sep[j]);
        if j == sep.len() - 1 {
            assert(out2[i + 1] == c);
            assert(!(out2[i + 1] == ' ' || out2[i + 1] == '\n'));
        } else {
            assert(sep =~= seq!['\n', '\n'] && j == 0);
            assert(out2[i + 2] == c);
            assert(!(out2[i + 2] == ' ' || out2[i + 2] == '\n'));
        }
    }
}

proof fn lemma_fold_good(s: Seq<char>)
    ensures
        good_state(clean_fold(s)),
    decreases s.len(),
{
    if s.len() > 0 {
        lemma_fold_good(s.drop_last());
        lemma_step_good(clean_fold(s.drop_last()), s.last());
    }
}

/// Cleaning always yields cleaned text: the cleaner's guarantees.
pub proof fn lemma_clean_is_clean(s: Seq<char>)
    ensures
        is_clean(clean_spec(s)),
{
    lemma_fold_good(s);
}

/// Whether a text ends with a pending space.
pub open spec fn tail_sp(p: Seq<char>) -> bool {
    p.len() > 0 && p.last() == ' '
}

/// How many line feeds (at most two) a text ends with.
pub open spec fn tail_nl(p: Seq<char>) -> int {
    if p.len() >= 2 && p[p.len() - 1] == '\n' && p[p.len() - 2] == '\n' {
        2
    } else if p.len() >= 1 && p[p.len() - 1] == '\n' {
        1
    } else {
        0
    }
}

/// How many trailing whitespace characters a clean text's prefix carries.
pub open spec fn tail_ws(p: Seq<char>) -> int {
    if tail_sp(p) {
        1
    } else {
        tail_nl(p)
    }
}

/// On a prefix of clean text, the cleaner's state is the prefix with its
/// trailing whitespace moved into the pending fields.
proof fn lemma_clean_prefix(t: Seq<char>, i: int)
    requires
        is_clean(t),
        0 <= i <= t.len(),
    ensures
        ({
            let p = t.take(i);
            clean_fold(p) == (p.take(p.len() - tail_ws(p)), tail_sp(p), tail_nl(p))
        }),
    decreases i,
{
    let p = t.take(i);
    if i == 0 {
        assert(p =~= Seq::<char>::empty());
        assert(clean_fold(p) == (Seq::<char>::empty(), false, 0int));
        assert(p.take(p.len() - tail_ws(p)) =~= Seq::<char>::empty());
    } else {
        let q = t.take(i - 1);
        lemma_clean_prefix(t, i - 1);
        assert(p.drop_last() =~= q);
        assert(p.last() == t[i - 1]);
        assert(clean_fold(p) == clean_step(clean_fold(q), t[i - 1]));
        let c = t[i - 1];
        assert(is_clean_char(c));
        let core = q.take(q.len() - tail_ws(q));
        if i >= 2 {
            assert(q.last() == t[i - 2]);
        }
        if q.len() > 0 {
            // A clean text starts with a content character, so the stripped
            // core of a nonempty prefix is nonempty.
            assert(q[0] == t[0]);
            assert(!is_ctrl(t[0]) && t[0] != ' ' && t[0] != '\n' && t[0] != '\t');
            if tail_ws(q) >= q.len() {
                assert(q.len() <= 2);
                assert(q[0] == ' ' || q[0] == '\n');
                assert(false);
            }
            assert(core.len() > 0);
            assert(core[0] == t[0]);
        }
        if c == '\n' {
            assert(i >= 2);
            assert(t[i - 2] != ' ');
            if t[i - 2] == '\n' {
                assert(tail_nl(q) >= 1);
                if tail_nl(q) == 2 {
                    assert(q[q.len() - 2] == '\n');
                    assert(q[q.len() - 2] == t[i - 3]);
                    assert(t[i - 3] == '\n' && t[i - 2] == '\n' && t[i - 1] == '\n');
                    assert(false);
                }
                assert(clean_fold(p) == (core, false, 2int));
                assert(tail_nl(p) == 2 && !tail_sp(p));
                assert(p.take(p.len() - 2) =~= core);
            } else {
                assert(tail_ws(q) == 0);
                assert(core =~= q);
                assert(clean_fold(p) == (q, false, 1int));
                assert(tail_nl(p) == 1 && !tail_sp(p));
                assert(p.take(p.len() - 1) =~= q);
            }
        } else if c == ' ' {
            assert(i >= 2);
            assert(t[i - 2] != ' ' && t[i - 2] != '\n');
            assert(tail_ws(q) == 0);
            assert(core =~= q);
            assert(q.len() > 0);
            assert(clean_fold(p) == (q, true, 0int));
            assert(tail_sp(p) && tail_nl(p) == 0);
            assert(p.take(p.len() - 1) =~= q);
        } else {
            // A content character: the pending separator is exactly the
            // stripped trailing whitespace, so the state catches up to `p`.
            assert(!is_ctrl(c) && !is_blank(c));
            let st = clean_fold(q);
            let sep = clean_sep(st);
            if q.len() == 0 {
                assert(clean_fold(p) == (Seq::<char>::empty() + sep + seq![c], false, 0int));
                assert(Seq::<char>::empty() + sep + seq![c] =~= p);
            } else {
                if tail_sp(q) {
                    assert(sep =~= seq![' ']);
                    assert(core + sep =~= q);
                } else if tail_nl(q) == 1 {
                    assert(sep =~= seq!['\n']);
                    assert(core + sep =~= q);
                } else if tail_nl(q) == 2 {
                    assert(sep =~= seq!['\n', '\n']);
                    assert(core + sep =~= q);
                } else {
                    assert(sep =~= Seq::<char>::empty());
                    assert(core + sep =~= q);
                }
                assert(core + sep + seq![c] =~= p);
            }
            assert(tail_ws(p) == 0);
            assert(p.take(p.len() - 0) =~= p);
        }
    }
}

/// Cleaning is the identity on text that is already clean.
pub proof fn lemma_clean_of_clean(t: Seq<char>)
    requires
        is_clean(t),
    ensures
        clean_spec(t) == t,
{
    lemma_clean_prefix(t, t.len() as int);
    assert(t.take(t.len() as int) =~= t);
    assert(tail_ws(t) == 0);
    assert(t.take(t.len() - 0) =~= t);
}

/// Cleaning is idempotent: cleaning cleaned text changes nothing.
pub proof fn lemma_clean_idempotent(s: Seq<char>)
    ensures
        clean_spec(clean_spec(s)) == clean_spec(s),
{
    lemma_clean_is_clean(s);
    lemma_clean_of_clean(clean_spec(s));
}

/// Cleans extracted text: drops control characters other than tab and line
/// feed, collapses runs of spaces and tabs to one space, collapses blank-line
/// runs to a single blank line, trims every line, and trims the whole text.
pub fn clean_text(s: &str) -> (r: String)
    ensures
        r@ == clean_spec(s@),
        is_clean(r@),
{
    let chars = str_to_chars(s);
    let n = chars.len();
    let mut out: Vec<char> = Vec::new();
    let mut sp: bool = false;
    let mut nl: u8 = 0;
    let mut i: usize = 0;
    while i < n
        invariant
            n == chars.len(),
            chars@ == s@,
            i <= n,
            nl <= 2,
            (out@, sp, nl as int) == clean_fold(s@.take(i as int)),
        decreases n - i,
    {
        let c = chars[i];
        let ghost st = clean_fold(s@.take(i as int));
        proof {
            assert(s@.take(i + 1).drop_last() =~= s@.take(i as int));
            assert(s@.take(i + 1).last() == s@[i as int]);
        }
        let u = c as u32;
        if c == '\n' {
            sp = false;
            if nl < 2 {
                nl = nl + 1;
            }
        } else if c == ' ' || c == '\t' {
            if nl == 0 && out.len() > 0 {
                sp = true;
            }
        } else if u < 0x20 || (0x7F <= u && u <= 0x9F) {
            // a control character other than tab and line feed: dropped
        } else {
            if out.len() > 0 {
                if nl == 1 {
                    out.push('\n');
                } else if nl >= 2 {
                    out.push('\n');
                    out.push('\n');
                } else if sp {
                    out.push(' ');
                }
            }
            out.push(c);
            sp = false;
            nl = 0;
            proof {
                assert(out@ =~= st.0 + clean_sep(st) + seq![c]);
            }
        }
        i = i + 1;
    }
    proof {
        assert(s@.take(n as int) =~= s@);
        lemma_clean_is_clean(s@);
    }
    string_from_chars(&out)
}

} // verus!
