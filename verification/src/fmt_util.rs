//! Small verified helpers for building display strings: decimal rendering
//! of unsigned integers, padding, and character/string conversions.

use vstd::prelude::*;

verus! {

/// The decimal digit character for a value below ten.
pub open spec fn digit_char(d: int) -> char
    recommends
        0 <= d < 10,
{
    ((d + 0x30) as u8) as char
}

/// The decimal rendering of `n`, most significant digit first.
pub open spec fn dec_spec(n: int) -> Seq<char>
    decreases n,
{
    if n < 0 {
        Seq::empty()
    } else if n < 10 {
        seq![digit_char(n)]
    } else {
        dec_spec(n / 10).push(digit_char(n % 10))
    }
}

/// Relies on `String: FromIterator<char>`: collecting characters yields the
/// string of exactly those characters in order.
#[verifier::external_body]
pub(crate) fn string_from_chars(v: &Vec<char>) -> (r: String)
    ensures
        r@ == v@,
{
    v.iter().collect()
}

/// Collects the characters of a string slice into a vector, in order.
pub fn str_to_chars(s: &str) -> (r: Vec<char>)
    ensures
        r@ == s@,
{
    let n = s.unicode_len();
    let mut r: Vec<char> = Vec::new();
    let mut i: usize = 0;
    while i < n
        invariant
            n == s@.len(),
            i <= n,
            r@ == s@.take(i as int),
        decreases n - i,
    {
        r.push(s.get_char(i));
        i = i + 1;
        assert(r@ =~= s@.take(i as int));
    }
    assert(r@ =~= s@);
    r
}

/// Renders `n` in decimal.
pub fn fmt_u64(n: u64) -> (r: Vec<char>)
    ensures
        r@ == dec_spec(n as int),
    decreases n,
{
    let d: u8 = (n % 10) as u8;
    let c: char = (d + 0x30) as char;
    if n < 10 {
        let mut r: Vec<char> = Vec::new();
        r.push(c);
        assert(r@ =~= seq![digit_char(n as int)]);
        r
    } else {
        let mut r = fmt_u64(n / 10);
        r.push(c);
        assert(r@ =~= dec_spec(n as int / 10).push(digit_char(n as int % 10)));
        r
    }
}

/// Renders an unsigned 64-bit value in decimal.
pub fn u64_str(n: u64) -> (r: String)
    ensures
        r@ == dec_spec(n as int),
{
    let v = fmt_u64(n);
    string_from_chars(&v)
}

/// Renders a machine-word value in decimal.
pub fn usize_str(n: usize) -> (r: String)
    ensures
        r@ == dec_spec(n as int),
{
    u64_str(n as u64)
}

/// `n` spaces.
pub open spec fn spaces(n: int) -> Seq<char> {
    Seq::new(if n >= 0 {
        n as nat
    } else {
        0
    }, |i: int| ' ')
}

/// A run of spaces.
pub fn make_spaces(n: usize) -> (r: String)
    ensures
        r@ == spaces(n as int),
{
    let mut v: Vec<char> = Vec::new();
    let mut i: usize = 0;
    while i < n
        invariant
            i <= n,
            v@ =~= spaces(i as int),
        decreases n - i,
    {
        v.push(' ');
        i = i + 1;
        proof {
            assert(v@ =~= spaces(i as int));
        }
    }
    string_from_chars(&v)
}

/// `s` padded with spaces on the left up to `w` characters.
pub open spec fn pad_left_spec(s: Seq<char>, w: int) -> Seq<char> {
    if s.len() >= w {
        s
    } else {
        spaces(w - s.len()) + s
    }
}

/// `s` padded with spaces on the right up to `w` characters.
pub open spec fn pad_right_spec(s: Seq<char>, w: int) -> Seq<char> {
    if s.len() >= w {
        s
    } else {
        s + spaces(w - s.len())
    }
}

/// Right-aligns `s` in a field of `w` characters.
pub fn pad_left(s: &str, w: usize) -> (r: String)
    ensures
        r@ == pad_left_spec(s@, w as int),
{
    let n = s.unicode_len();
    if n >= w {
        s.to_owned()
    } else {
        let mut r = make_spaces(w - n);
        r.append(s);
        r
    }
}

/// Left-aligns `s` in a field of `w` characters.
pub fn pad_right(s: &str, w: usize) -> (r: String)
    ensures
        r@ == pad_right_spec(s@, w as int),
{
    let n = s.unicode_len();
    if n >= w {
        s.to_owned()
    } else {
        let pad = make_spaces(w - n);
        let mut r = s.to_owned();
        r.append(pad.as_str());
        r
    }
}

/// The pieces joined by `sep`, in order.
pub open spec fn join_sep_spec(pieces: Seq<Seq<char>>, sep: Seq<char>) -> Seq<char>
    decreases pieces.len(),
{
    if pieces.len() == 0 {
        Seq::empty()
    } else if pieces.len() == 1 {
        pieces[0]
    } else {
        join_sep_spec(pieces.drop_last(), sep) + sep + pieces.last()
    }
}

/// Joins strings with a separator.
pub fn join_strs(pieces: &Vec<String>, sep: &str) -> (r: String)
    ensures
        r@ == join_sep_spec(pieces.deep_view(), sep@),
{
    let mut s = String::new();
    let mut i: usize = 0;
    while i < pieces.len()
        invariant
            i <= pieces@.len(),
            s@ == join_sep_spec(pieces.deep_view().take(i as int), sep@),
        decreases pieces@.len() - i,
    {
        if i > 0 {
            s.append(sep);
        }
        s.append(pieces[i].as_str());
        i = i + 1;
        proof {
            assert(pieces.deep_view().take(i as int).drop_last() =~= pieces.deep_view().take(
                i - 1,
            ));
            assert(pieces.deep_view().take(i as int).last() == pieces.deep_view()[i - 1]);
        }
    }
    proof {
        assert(pieces.deep_view().take(pieces.deep_view().len() as int) =~= pieces.deep_view());
    }
    s
}

/// `s` cut to at most `max` characters, a cut marked with an ellipsis.
pub open spec fn truncate_display_spec(s: Seq<char>, max: int) -> Seq<char> {
    if s.len() > max {
        s.take(max - 3) + "..."@
    } else {
        s
    }
}

/// Cuts `s` to at most `max` characters, marking a cut with an ellipsis.
pub fn truncate_display(s: &str, max: usize) -> (r: String)
    requires
        max >= 3,
    ensures
        r@ == truncate_display_spec(s@, max as int),
{
    let n = s.unicode_len();
    if n > max {
        let mut r = s.substring_char(0, max - 3).to_owned();
        r.append("...");
        r
    } else {
        s.to_owned()
    }
}

/// What `format_file_size` renders: bytes exactly below one kibibyte, and
/// one truncated decimal place in the matching binary unit above it.
pub open spec fn file_size_spec(size: int) -> Seq<char> {
    if size < 1024 {
        dec_spec(size) + " B"@
    } else if size < 1048576 {
        scaled_spec(size, 1024) + " KB"@
    } else if size < 1073741824 {
        scaled_spec(size, 1048576) + " MB"@
    } else if size < 1099511627776 {
        scaled_spec(size, 1073741824) + " GB"@
    } else {
        scaled_spec(size, 1099511627776) + " TB"@
    }
}

/// A size scaled by `unit`, with one truncated decimal place.
pub open spec fn scaled_spec(size: int, unit: int) -> Seq<char> {
    dec_spec(size / unit) + "."@ + dec_spec((size % unit) * 10 / unit)
}

/// Renders a byte count for people: `500 B`, `1.0 KB`, `1.5 KB`, `1.0 MB`.
pub fn format_file_size(size: u64) -> (r: String)
    ensures
        r@ == file_size_spec(size as int),
{
    if size < 1024 {
        let mut s = u64_str(size);
        s.append(" B");
        s
    } else if size < 1048576 {
        scaled(size, 1024, " KB")
    } else if size < 1073741824 {
        scaled(size, 1048576, " MB")
    } else if size < 1099511627776 {
        scaled(size, 1073741824, " GB")
    } else {
        scaled(size, 1099511627776, " TB")
    }
}

/// Renders `size / unit` with one truncated decimal place and the unit.
fn scaled(size: u64, unit: u64, suffix: &str) -> (r: String)
    requires
        unit >= 1,
        unit <= 1099511627776,
    ensures
        r@ == scaled_spec(size as int, unit as int) + suffix@,
{
    let whole = size / unit;
    let tenth = (size % unit) * 10 / unit;
    let mut s = u64_str(whole);
    s.append(".");
    let t = u64_str(tenth);
    s.append(t.as_str());
    s.append(suffix);
    proof {
        reveal_strlit(".");
        assert("."@ =~= seq!['.']);
        assert(s@ =~= scaled_spec(size as int, unit as int) + suffix@);
    }
    s
}

} // verus!
