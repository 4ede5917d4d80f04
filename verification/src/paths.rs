//! Path handling over plain strings.
//!
//! The library models a filesystem path as the string of its characters,
//! with `/` as the separator: the file name is what follows the last
//! separator, the extension what follows the last dot inside the file name
//! (a leading dot starts a hidden name, not an extension).

use vstd::prelude::*;

use crate::fmt_util::{str_to_chars, string_from_chars};

verus! {

/// Compares two string slices by their characters.
pub fn eq_str(a: &str, b: &str) -> (r: bool)
    ensures
        r == (a@ == b@),
{
    let na = a.unicode_len();
    let nb = b.unicode_len();
    if na != nb {
        proof {
            assert(a@ != b@) by {
                assert(a@.len() != b@.len());
            }
        }
        return false;
    }
    let mut i: usize = 0;
    while i < na
        invariant
            na == a@.len(),
            nb == b@.len(),
            na == nb,
            i <= na,
            forall|j: int| 0 <= j < i ==> a@[j] == b@[j],
        decreases na - i,
    {
        if a.get_char(i) != b.get_char(i) {
            return false;
        }
        i = i + 1;
    }
    proof {
        assert(a@ =~= b@);
    }
    true
}

/// The lower-case form of an ASCII letter; other characters are unchanged.
pub open spec fn lower_char(c: char) -> char {
    if 'A' <= c && c <= 'Z' {
        (((c as u32) + 32) as u8) as char
    } else {
        c
    }
}

/// A string lowered character by character (ASCII letters only).
pub open spec fn lower_seq(s: Seq<char>) -> Seq<char> {
    s.map_values(|c: char| lower_char(c))
}

/// Lowers the ASCII letters of a string.
pub fn lower_ascii(s: &str) -> (r: String)
    ensures
        r@ == lower_seq(s@),
{
    let n = s.unicode_len();
    let mut out: Vec<char> = Vec::new();
    let mut i: usize = 0;
    while i < n
        invariant
            n == s@.len(),
            i <= n,
            out@ =~= lower_seq(s@.take(i as int)),
        decreases n - i,
    {
        let c = s.get_char(i);
        let u = c as u32;
        if 65 <= u && u <= 90 {
            let l: u8 = (u + 32) as u8;
            out.push(l as char);
        } else {
            out.push(c);
        }
        i = i + 1;
        proof {
            assert(lower_seq(s@.take(i as int)) =~= lower_seq(s@.take(i - 1)).push(
                lower_char(s@[i - 1]),
            ));
        }
    }
    proof {
        assert(s@.take(n as int) =~= s@);
    }
    string_from_chars(&out)
}

/// The upper-case form of an ASCII letter; other characters are unchanged.
pub open spec fn upper_char(c: char) -> char {
    if 'a' <= c && c <= 'z' {
        (((c as u32) - 32) as u8) as char
    } else {
        c
    }
}

/// A string raised character by character (ASCII letters only).
pub open spec fn upper_seq(s: Seq<char>) -> Seq<char> {
    s.map_values(|c: char| upper_char(c))
}

/// Raises the ASCII letters of a string.
pub fn upper_ascii(s: &str) -> (r: String)
    ensures
        r@ == upper_seq(s@),
{
    let n = s.unicode_len();
    let mut out: Vec<char> = Vec::new();
    let mut i: usize = 0;
    while i < n
        invariant
            n == s@.len(),
            i <= n,
            out@ =~= upper_seq(s@.take(i as int)),
        decreases n - i,
    {
        let c = s.get_char(i);
        let u = c as u32;
        if 97 <= u && u <= 122 {
            let l: u8 = (u - 32) as u8;
            out.push(l as char);
        } else {
            out.push(c);
        }
        i = i + 1;
        proof {
            assert(upper_seq(s@.take(i as int)) =~= upper_seq(s@.take(i - 1)).push(
                upper_char(s@[i - 1]),
            ));
        }
    }
    proof {
        assert(s@.take(n as int) =~= s@);
    }
    string_from_chars(&out)
}

/// The index of the last separator in a path, or -1 if there is none.
pub open spec fn last_slash(p: Seq<char>) -> int
    decreases p.len(),
{
    if p.len() == 0 {
        -1
    } else if p.last() == '/' {
        p.len() - 1
    } else {
        last_slash(p.drop_last())
    }
}

proof fn lemma_last_slash_skip(p: Seq<char>, j: int)
    requires
        0 <= j <= p.len(),
        forall|k: int| j <= k < p.len() ==> p[k] != '/',
    ensures
        last_slash(p) == last_slash(p.take(j)),
    decreases p.len() - j,
{
    if j < p.len() {
        assert(p.take(p.len() as int) =~= p);
        assert(p.take(p.len() - 1) =~= p.drop_last());
        lemma_last_slash_skip(p.drop_last(), j);
        assert(p.drop_last().take(j) =~= p.take(j));
    } else {
        assert(p.take(j) =~= p);
    }
}

proof fn lemma_last_slash_bounds(p: Seq<char>)
    ensures
        -1 <= last_slash(p) < p.len(),
        last_slash(p) >= 0 ==> p[last_slash(p)] == '/',
    decreases p.len(),
{
    if p.len() > 0 && p.last() != '/' {
        lemma_last_slash_bounds(p.drop_last());
    }
}

/// The file name: what follows the last separator.
pub open spec fn file_name_spec(p: Seq<char>) -> Seq<char> {
    p.subrange(last_slash(p) + 1, p.len() as int)
}

/// Returns the final component of a path.
pub fn file_name_of(path: &str) -> (r: String)
    ensures
        r@ == file_name_spec(path@),
{
    let chars = str_to_chars(path);
    let n = chars.len();
    let mut j: usize = n;
    while j > 0 && chars[j - 1] != '/'
        invariant
            n == path@.len(),
            chars@ == path@,
            j <= n,
            forall|k: int| j <= k < n ==> path@[k] != '/',
        decreases j,
    {
        j = j - 1;
    }
    proof {
        lemma_last_slash_skip(path@, j as int);
        if j > 0 {
            assert(path@.take(j as int).last() == '/');
            assert(last_slash(path@.take(j as int)) == j - 1);
        } else {
            assert(path@.take(0) =~= Seq::<char>::empty());
        }
        assert(last_slash(path@) == j - 1);
    }
    let mut out: Vec<char> = Vec::new();
    let mut i: usize = j;
    while i < n
        invariant
            n == chars.len(),
            chars@ == path@,
            j <= i <= n,
            out@ =~= path@.subrange(j as int, i as int),
        decreases n - i,
    {
        out.push(chars[i]);
        i = i + 1;
    }
    proof {
        assert(out@ =~= file_name_spec(path@));
    }
    string_from_chars(&out)
}

/// The index of the last dot in a file name, or -1 if there is none.
pub open spec fn last_dot(nm: Seq<char>) -> int
    decreases nm.len(),
{
    if nm.len() == 0 {
        -1
    } else if nm.last() == '.' {
        nm.len() - 1
    } else {
        last_dot(nm.drop_last())
    }
}

proof fn lemma_last_dot_skip(p: Seq<char>, j: int)
    requires
        0 <= j <= p.len(),
        forall|k: int| j <= k < p.len() ==> p[k] != '.',
    ensures
        last_dot(p) == last_dot(p.take(j)),
    decreases p.len() - j,
{
    if j < p.len() {
        assert(p.take(p.len() as int) =~= p);
        assert(p.take(p.len() - 1) =~= p.drop_last());
        lemma_last_dot_skip(p.drop_last(), j);
        assert(p.drop_last().take(j) =~= p.take(j));
    } else {
        assert(p.take(j) =~= p);
    }
}

/// The stem of a file name: up to the last dot, the whole name when the
/// dot is missing or leads a hidden name.
pub open spec fn stem_spec(nm: Seq<char>) -> Seq<char> {
    if last_dot(nm) <= 0 {
        nm
    } else {
        nm.take(last_dot(nm))
    }
}

/// The extension of a file name: what follows the last dot.  A name with
/// no dot, a hidden name's leading dot, and a trailing dot all yield no
/// extension.
pub open spec fn ext_spec(nm: Seq<char>) -> Option<Seq<char>> {
    if last_dot(nm) <= 0 || last_dot(nm) == nm.len() - 1 {
        None
    } else {
        Some(nm.subrange(last_dot(nm) + 1, nm.len() as int))
    }
}

/// Splits a file name into its stem and optional extension.
pub fn split_name(name: &str) -> (r: (String, Option<String>))
    ensures
        r.0@ == stem_spec(name@),
        match r.1 {
            Some(e) => ext_spec(name@) == Some(e@),
            None => ext_spec(name@) is None,
        },
{
    let chars = str_to_chars(name);
    let n = chars.len();
    let mut j: usize = n;
    while j > 0 && chars[j - 1] != '.'
        invariant
            n == name@.len(),
            chars@ == name@,
            j <= n,
            forall|k: int| j <= k < n ==> name@[k] != '.',
        decreases j,
    {
        j = j - 1;
    }
    proof {
        lemma_last_dot_skip(name@, j as int);
        if j > 0 {
            assert(name@.take(j as int).last() == '.');
            assert(last_dot(name@.take(j as int)) == j - 1);
        } else {
            assert(name@.take(0) =~= Seq::<char>::empty());
        }
        assert(last_dot(name@) == j - 1);
    }
    if j <= 1 {
        let mut whole: Vec<char> = Vec::new();
        let mut i: usize = 0;
        while i < n
            invariant
                n == chars.len(),
                chars@ == name@,
                i <= n,
                whole@ =~= name@.take(i as int),
            decreases n - i,
        {
            whole.push(chars[i]);
            i = i + 1;
        }
        proof {
            assert(whole@ =~= name@);
        }
        (string_from_chars(&whole), None)
    } else if j == n {
        // a trailing dot: the name carries no extension
        let mut stem: Vec<char> = Vec::new();
        let mut i: usize = 0;
        while i < j - 1
            invariant
                n == chars.len(),
                chars@ == name@,
                j <= n,
                j >= 2,
                i <= j - 1,
                stem@ =~= name@.take(i as int),
            decreases j - i,
        {
            stem.push(chars[i]);
            i = i + 1;
        }
        proof {
            assert(stem@ =~= stem_spec(name@));
        }
        (string_from_chars(&stem), None)
    } else {
        let mut stem: Vec<char> = Vec::new();
        let mut i: usize = 0;
        while i < j - 1
            invariant
                n == chars.len(),
                chars@ == name@,
                j <= n,
                j >= 2,
                i <= j - 1,
                stem@ =~= name@.take(i as int),
            decreases j - i,
        {
            stem.push(chars[i]);
            i = i + 1;
        }
        let mut ext: Vec<char> = Vec::new();
        let mut k: usize = j;
        while k < n
            invariant
                n == chars.len(),
                chars@ == name@,
                j <= k <= n,
                ext@ =~= name@.subrange(j as int, k as int),
            decreases n - k,
        {
            ext.push(chars[k]);
            k = k + 1;
        }
        proof {
            assert(stem@ =~= stem_spec(name@));
            assert(ext@ =~= name@.subrange(last_dot(name@) + 1, name@.len() as int));
        }
        (string_from_chars(&stem), Some(string_from_chars(&ext)))
    }
}

/// A directory path joined with a name: a separator goes between them
/// unless the directory is empty or is the root.
pub open spec fn join_spec(parent: Seq<char>, name: Seq<char>) -> Seq<char> {
    if parent.len() == 0 {
        name
    } else if parent == seq!['/'] {
        seq!['/'] + name
    } else {
        parent + seq!['/'] + name
    }
}

/// Joins a directory path and a file name.
pub fn join_path(parent: &str, name: &str) -> (r: String)
    ensures
        r@ == join_spec(parent@, name@),
{
    let n = parent.unicode_len();
    if n == 0 {
        return name.to_owned();
    }
    if n == 1 && parent.get_char(0) == '/' {
        proof {
            assert(parent@ =~= seq!['/']);
        }
        let mut s = "/".to_owned();
        s.append(name);
        proof {
            reveal_strlit("/");
            assert("/"@ =~= seq!['/']);
            assert(s@ =~= seq!['/'] + name@);
        }
        return s;
    }
    proof {
        assert(parent@ != seq!['/']) by {
            if parent@ == seq!['/'] {
                assert(parent@.len() == 1 && parent@[0] == '/');
            }
        }
    }
    let mut s = parent.to_owned();
    s.append("/");
    s.append(name);
    proof {
        assert(s@ =~= parent@ + seq!['/'] + name@) by {
            reveal_strlit("/");
            assert("/"@ =~= seq!['/']);
        }
    }
    s
}

/// The parent of a path: up to the last separator.  A bare name has the
/// empty parent; a path with no name above the root keeps the root.
pub open spec fn parent_spec(p: Seq<char>) -> Option<Seq<char>> {
    if p.len() == 0 {
        None
    } else if last_slash(p) < 0 {
        Some(Seq::empty())
    } else if last_slash(p) == 0 {
        Some(seq!['/'])
    } else {
        Some(p.take(last_slash(p)))
    }
}

/// Returns the directory part of a path.
pub fn parent_of(path: &str) -> (r: Option<String>)
    ensures
        match r {
            Some(d) => parent_spec(path@) == Some(d@),
            None => parent_spec(path@) is None,
        },
{
    let chars = str_to_chars(path);
    let n = chars.len();
    if n == 0 {
        return None;
    }
    let mut j: usize = n;
    while j > 0 && chars[j - 1] != '/'
        invariant
            n == path@.len(),
            chars@ == path@,
            j <= n,
            forall|k: int| j <= k < n ==> path@[k] != '/',
        decreases j,
    {
        j = j - 1;
    }
    proof {
        lemma_last_slash_skip(path@, j as int);
        if j > 0 {
            assert(path@.take(j as int).last() == '/');
            assert(last_slash(path@.take(j as int)) == j - 1);
        } else {
            assert(path@.take(0) =~= Seq::<char>::empty());
        }
        assert(last_slash(path@) == j - 1);
    }
    if j == 0 {
        let out: Vec<char> = Vec::new();
        proof {
            assert(out@ =~= Seq::<char>::empty());
        }
        Some(string_from_chars(&out))
    } else if j == 1 {
        let mut out: Vec<char> = Vec::new();
        out.push('/');
        proof {
            assert(out@ =~= seq!['/']);
        }
        Some(string_from_chars(&out))
    } else {
        let mut out: Vec<char> = Vec::new();
        let mut i: usize = 0;
        while i < j - 1
            invariant
                n == chars.len(),
                chars@ == path@,
                2 <= j <= n,
                i <= j - 1,
                out@ =~= path@.take(i as int),
            decreases j - i,
        {
            out.push(chars[i]);
            i = i + 1;
        }
        proof {
            assert(out@ =~= path@.take(last_slash(path@)));
        }
        Some(string_from_chars(&out))
    }
}

} // verus!
