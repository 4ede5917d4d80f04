//! The chunker.
//!
//! Cleaned text is split into overlapping character windows: with window `W`
//! and overlap `O` (`0 <= O < W`), chunk `i` covers the codepoints
//! `[i*(W-O), i*(W-O)+W)`, truncated to the text; the last chunk's right
//! edge is exactly the text's length.  `lemma_chunks_roundtrip` states the
//! round-trip law: dropping each later chunk's first `O` characters and
//! concatenating reconstructs the text.

use vstd::prelude::*;

use crate::errors::CoreError;

verus! {

/// How many chunks a text of length `len` yields at stride `s`.
pub open spec fn num_chunks(len: int, s: int) -> int
    recommends
        s >= 1,
{
    if len == 0 {
        0
    } else {
        (len - 1) / s + 1
    }
}

/// Where chunk `i` ends: `i*s + w` truncated to the text.
pub open spec fn chunk_end(len: int, w: int, s: int, i: int) -> int {
    if i * s + w <= len {
        i * s + w
    } else {
        len
    }
}

/// Chunk `i` of the text.
pub open spec fn chunk_at(t: Seq<char>, w: int, s: int, i: int) -> Seq<char>
    recommends
        s >= 1,
        0 <= i < num_chunks(t.len() as int, s),
{
    t.subrange(i * s, chunk_end(t.len() as int, w, s, i))
}

/// All chunks of the text, in order.
pub open spec fn chunks_of(t: Seq<char>, w: int, o: int) -> Seq<Seq<char>>
    recommends
        0 <= o < w,
{
    Seq::new(num_chunks(t.len() as int, w - o) as nat, |i: int| chunk_at(t, w, w - o, i))
}

/// A chunk with its leading overlap removed (clipped to the chunk).
pub open spec fn strip_head(c: Seq<char>, o: int) -> Seq<char>
    recommends
        o >= 0,
{
    if o <= c.len() {
        c.subrange(o, c.len() as int)
    } else {
        Seq::empty()
    }
}

/// The reassembly of a chunk sequence: the first chunk whole, every later
/// chunk with its first `o` characters dropped, concatenated in order.
pub open spec fn reassemble(cs: Seq<Seq<char>>, o: int) -> Seq<char>
    decreases cs.len(),
{
    if cs.len() == 0 {
        Seq::empty()
    } else if cs.len() == 1 {
        cs[0]
    } else {
        reassemble(cs.drop_last(), o) + strip_head(cs.last(), o)
    }
}

proof fn lemma_mul_mono(a: int, b: int, s: int)
    requires
        a <= b,
        s >= 0,
    ensures
        a * s <= b * s,
{
    assert(a * s <= b * s) by (nonlinear_arith)
        requires
            a <= b,
            s >= 0,
    ;
}

proof fn lemma_div_ceil(len: int, s: int, i: int)
    requires
        s >= 1,
        i * s <= len - 1,
        len - 1 < (i + 1) * s,
        i >= 0,
    ensures
        (len - 1) / s == i,
{
    assert((len - 1) / s == i) by (nonlinear_arith)
        requires
            s >= 1,
            i * s <= len - 1,
            len - 1 < (i + 1) * s,
            i >= 0,
    ;
}

/// The first `k` chunks reassemble the text up to chunk `k - 1`'s end.
proof fn lemma_roundtrip_prefix(t: Seq<char>, w: int, o: int, k: int)
    requires
        0 <= o < w,
        0 <= k <= num_chunks(t.len() as int, w - o),
    ensures
        reassemble(chunks_of(t, w, o).take(k), o) == if k == 0 {
            Seq::<char>::empty()
        } else {
            t.take(chunk_end(t.len() as int, w, w - o, k - 1))
        },
    decreases k,
{
    let s = w - o;
    let len = t.len() as int;
    let cs = chunks_of(t, w, o);
    if k == 0 {
        assert(cs.take(0) =~= Seq::<Seq<char>>::empty());
    } else if k == 1 {
        lemma_roundtrip_prefix(t, w, o, 0);
        assert(cs.take(1).len() == 1);
        assert(cs.take(1)[0] == chunk_at(t, w, s, 0));
        assert(chunk_at(t, w, s, 0) =~= t.take(chunk_end(len, w, s, 0)));
    } else {
        lemma_roundtrip_prefix(t, w, o, k - 1);
        let i = k - 1;
        assert(cs.take(k).drop_last() =~= cs.take(k - 1));
        assert(cs.take(k).last() == chunk_at(t, w, s, i));
        // chunk i starts where chunk i-1's end minus the overlap sits:
        // i*s + o == (i-1)*s + w, so the stripped chunk continues exactly
        // at the previous end.
        let e_prev = chunk_end(len, w, s, i - 1);
        let e_cur = chunk_end(len, w, s, i);
        assert((i - 1) * s + w == i * s + o) by (nonlinear_arith)
            requires
                s == w - o,
        ;
        assert(i * s <= len - 1) by {
            assert(i <= (len - 1) / s);
            assert((len - 1) / s * s <= len - 1) by (nonlinear_arith)
                requires
                    s >= 1,
                    len - 1 >= 0,
            ;
            lemma_mul_mono(i, (len - 1) / s, s);
        }
        let c = chunk_at(t, w, s, i);
        assert(c.len() == e_cur - i * s);
        if o <= c.len() {
            assert(strip_head(c, o) =~= t.subrange(i * s + o, e_cur));
            assert(e_prev == i * s + o);
            assert(t.take(e_prev) + t.subrange(e_prev, e_cur) =~= t.take(e_cur));
        } else {
            // the last chunk is shorter than the overlap: it adds nothing
            // and the text was already fully covered.
            assert(e_cur == len);
            assert(e_prev == len);
            assert(strip_head(c, o) =~= Seq::<char>::empty());
            assert(t.take(len) + Seq::<char>::empty() =~= t.take(len));
        }
    }
}

/// Round-trip: stripping each later chunk's leading overlap and
/// concatenating all chunks reconstructs the original text exactly.
pub proof fn lemma_chunks_roundtrip(t: Seq<char>, w: int, o: int)
    requires
        0 <= o < w,
    ensures
        reassemble(chunks_of(t, w, o), o) == t,
{
    let s = w - o;
    let len = t.len() as int;
    let n = num_chunks(len, s);
    let cs = chunks_of(t, w, o);
    if len == 0 {
        assert(cs.take(0) =~= cs);
        lemma_roundtrip_prefix(t, w, o, 0);
        assert(t =~= Seq::<char>::empty());
    } else {
        lemma_roundtrip_prefix(t, w, o, n);
        assert(cs.take(n) =~= cs);
        // the last chunk ends exactly at the text's length
        assert((n - 1) * s >= len - s) by {
            assert(n - 1 == (len - 1) / s);
            assert((len - 1) / s * s > len - 1 - s) by (nonlinear_arith)
                requires
                    s >= 1,
                    len - 1 >= 0,
            ;
        }
        assert((n - 1) * s + w >= len);
        assert(chunk_end(len, w, s, n - 1) == len);
        assert(t.take(len) =~= t);
    }
}

/// Splits text into overlapping windows of `window` codepoints with
/// `overlap` codepoints shared between neighbours.  Fails exactly when the
/// overlap is not smaller than the window.
pub fn chunk_text(text: &str, window: usize, overlap: usize) -> (r: Result<Vec<String>, CoreError>)
    ensures
        overlap < window <==> r is Ok,
        r matches Ok(cs) ==> cs.deep_view() == chunks_of(text@, window as int, overlap as int),
{
    if overlap >= window {
        return Err(CoreError::Config("chunk overlap must be smaller than chunk size".to_owned()));
    }
    let s = window - overlap;
    let n = text.unicode_len();
    let mut out: Vec<String> = Vec::new();
    let ghost w = window as int;
    let ghost si = s as int;
    if n == 0 {
        assert(out.deep_view() =~= chunks_of(text@, w, overlap as int));
        return Ok(out);
    }
    let mut start: usize = 0;
    proof {
        assert(0 * si == 0) by (nonlinear_arith);
    }
    loop
        invariant
            n == text@.len(),
            n > 0,
            1 <= s <= window,
            si == s,
            w == window,
            w - overlap == si,
            start == out.len() * si,
            start < n,
            forall|j: int| 0 <= j < out.len() ==> (#[trigger] out@[j])@ == chunk_at(text@, w, si, j),
        decreases n - start,
    {
        let end = if n - start < window {
            n
        } else {
            start + window
        };
        let piece = text.substring_char(start, end);
        let ghost i = out.len() as int;
        out.push(piece.to_owned());
        proof {
            assert(chunk_end(n as int, w, si, i) == end);
            assert(out@[i]@ =~= chunk_at(text@, w, si, i));
            assert(i * si <= n - 1);
            assert((i + 1) * si == i * si + si) by (nonlinear_arith);
        }
        if s >= n - start {
            proof {
                lemma_div_ceil(n as int, si, i);
                assert(out.len() == num_chunks(n as int, si));
                let cs = chunks_of(text@, w, overlap as int);
                assert forall|j: int| 0 <= j < out.len() implies out.deep_view()[j] == cs[j] by {
                    assert(out.deep_view()[j] == out@[j]@);
                    assert(cs[j] == chunk_at(text@, w, si, j));
                }
                assert(out.deep_view() =~= cs);
            }
            return Ok(out);
        }
        start = start + s;
    }
}

} // verus!
