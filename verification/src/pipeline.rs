//! The indexing pipeline's decisions.
//!
//! Extraction and embedding happen at the edges; everything the pipeline
//! decides — whether a path is indexable, how content becomes chunks, how
//! work is batched, how a query is normalised, when a rename is legal —
//! is verified here.

use vstd::prelude::*;

use crate::chunker::{chunk_end, chunk_text, chunks_of, num_chunks};
use crate::errors::CoreError;
use crate::extractors::{extractor_from_file_path, extractor_spec};
use crate::text_clean::{clean_spec, clean_text};

verus! {

/// What the pipeline does with a path.
#[derive(Debug, Clone, Copy, PartialEq, Eq, Structural)]
pub enum IndexPlan {
    /// No extractor handles the file: indexing it is a no-op.
    Skip,
    /// Extract, clean, chunk, embed and upsert the file.
    Extract,
}

/// The stateless indexing pipeline around a store and an inference client.
pub struct ExtractionService;

impl ExtractionService {
    /// Cleans extracted text; empty content stays empty and is no error.
    pub fn clean_content(content: &str) -> (r: Result<String, CoreError>)
        ensures
            r matches Ok(t) && t@ == clean_spec(content@),
    {
        Ok(clean_text(content))
    }
}

/// Decides how `index_file` treats a path.  `exists` and `is_file` report
/// the filesystem's answers.  A missing path and a non-regular file are
/// errors; an unsupported extension is a no-op; anything else is
/// extracted.
pub fn plan_index_file(path: &str, exists_on_disk: bool, is_file: bool) -> (r: Result<
    IndexPlan,
    CoreError,
>)
    ensures
        !exists_on_disk ==> (r matches Err(CoreError::PathNotFound { path: p }) && p@ == path@),
        exists_on_disk && !is_file ==> (r matches Err(CoreError::UnsupportedFileType { path: p })
            && p@ == path@),
        exists_on_disk && is_file && extractor_spec(path@) is None ==> r matches Ok(
            IndexPlan::Skip,
        ),
        exists_on_disk && is_file && extractor_spec(path@) is Some ==> r matches Ok(
            IndexPlan::Extract,
        ),
{
    if !exists_on_disk {
        return Err(CoreError::path_not_found(path.to_owned()));
    }
    if !is_file {
        return Err(CoreError::unsupported_file_type(path.to_owned()));
    }
    match extractor_from_file_path(path) {
        Some(_) => Ok(IndexPlan::Extract),
        None => Ok(IndexPlan::Skip),
    }
}

/// Cleans extracted content and chunks it with the given window and
/// overlap.  Fails exactly when the overlap is not smaller than the
/// window.
pub fn clean_and_chunk(content: &str, window: usize, overlap: usize) -> (r: Result<
    Vec<String>,
    CoreError,
>)
    ensures
        overlap < window <==> r is Ok,
        r matches Ok(cs) ==> cs.deep_view() == chunks_of(
            clean_spec(content@),
            window as int,
            overlap as int,
        ),
{
    let cleaned = clean_text(content);
    chunk_text(cleaned.as_str(), window, overlap)
}

/// Splits `n` work items into contiguous batches of at most `batch`
/// items, in order: backpressure for backfills and embedding calls.
pub fn batch_ranges(n: usize, batch: usize) -> (r: Vec<(usize, usize)>)
    requires
        batch >= 1,
    ensures
        r@.len() == num_chunks(n as int, batch as int),
        forall|i: int|
            0 <= i < r@.len() ==> {
                &&& (#[trigger] r@[i]).0 == i * batch
                &&& r@[i].1 == chunk_end(n as int, batch as int, batch as int, i)
            },
{
    let mut out: Vec<(usize, usize)> = Vec::new();
    if n == 0 {
        return out;
    }
    let mut start: usize = 0;
    proof {
        assert(0 * batch == 0) by (nonlinear_arith);
    }
    loop
        invariant
            n > 0,
            batch >= 1,
            start == out.len() * batch,
            start < n,
            forall|i: int|
                0 <= i < out@.len() ==> {
                    &&& (#[trigger] out@[i]).0 == i * batch
                    &&& out@[i].1 == chunk_end(n as int, batch as int, batch as int, i)
                },
        decreases n - start,
    {
        let end = if n - start < batch {
            n
        } else {
            start + batch
        };
        let ghost i = out.len() as int;
        out.push((start, end));
        proof {
            assert(chunk_end(n as int, batch as int, batch as int, i) == end);
            assert(i * batch <= n - 1);
            assert((i + 1) * batch == i * batch + batch) by (nonlinear_arith);
        }
        if batch >= n - start {
            proof {
                assert((n as int - 1) / (batch as int) == i) by (nonlinear_arith)
                    requires
                        batch >= 1,
                        i * batch <= n - 1,
                        n - 1 < (i + 1) * batch,
                        i >= 0,
                ;
                assert(out@.len() == num_chunks(n as int, batch as int));
            }
            return out;
        }
        start = start + batch;
    }
}

/// Query whitespace: what trimming removes at either end.
pub open spec fn is_query_ws(c: char) -> bool {
    c == ' ' || c == '\t' || c == '\n' || c == '\r'
}

/// Whether a character is query whitespace.
fn is_query_ws_char(c: char) -> (r: bool)
    ensures
        r == is_query_ws(c),
{
    c == ' ' || c == '\t' || c == '\n' || c == '\r'
}

/// A query with leading whitespace removed.
pub open spec fn ltrim_spec(s: Seq<char>) -> Seq<char>
    decreases s.len(),
{
    if s.len() > 0 && is_query_ws(s.first()) {
        ltrim_spec(s.drop_first())
    } else {
        s
    }
}

/// A query with trailing whitespace removed.
pub open spec fn rtrim_spec(s: Seq<char>) -> Seq<char>
    decreases s.len(),
{
    if s.len() > 0 && is_query_ws(s.last()) {
        rtrim_spec(s.drop_last())
    } else {
        s
    }
}

/// A query trimmed at both ends.
pub open spec fn trim_spec(s: Seq<char>) -> Seq<char> {
    ltrim_spec(rtrim_spec(s))
}

proof fn lemma_ltrim_skip(s: Seq<char>, j: int)
    requires
        0 <= j <= s.len(),
        forall|k: int| 0 <= k < j ==> is_query_ws(#[trigger] s[k]),
        j < s.len() ==> !is_query_ws(s[j]),
    ensures
        ltrim_spec(s) == s.skip(j),
    decreases j,
{
    if j == 0 {
        assert(s.skip(0) =~= s);
    } else {
        assert(is_query_ws(s.first()));
        lemma_ltrim_skip(s.drop_first(), j - 1);
        assert(s.drop_first().skip(j - 1) =~= s.skip(j));
    }
}

proof fn lemma_rtrim_take(s: Seq<char>, j: int)
    requires
        0 <= j <= s.len(),
        forall|k: int| j <= k < s.len() ==> is_query_ws(#[trigger] s[k]),
        j > 0 ==> !is_query_ws(s[j - 1]),
    ensures
        rtrim_spec(s) == s.take(j),
    decreases s.len() - j,
{
    if j == s.len() {
        assert(s.take(j) =~= s);
    } else {
        assert(is_query_ws(s.last()));
        lemma_rtrim_take(s.drop_last(), j);
        assert(s.drop_last().take(j) =~= s.take(j));
    }
}

/// Trims a query; an all-whitespace query becomes nothing, and search
/// returns empty without touching the store.
pub fn normalize_query(query: &str) -> (r: Option<String>)
    ensures
        match r {
            Some(q) => q@ == trim_spec(query@) && q@.len() > 0,
            None => trim_spec(query@).len() == 0,
        },
{
    let n = query.unicode_len();
    let mut hi: usize = n;
    while hi > 0 && is_query_ws_char(query.get_char(hi - 1))
        invariant
            n == query@.len(),
            hi <= n,
            forall|k: int| hi <= k < n ==> is_query_ws(#[trigger] query@[k]),
        decreases hi,
    {
        hi = hi - 1;
    }
    proof {
        lemma_rtrim_take(query@, hi as int);
    }
    let mut lo: usize = 0;
    while lo < hi && is_query_ws_char(query.get_char(lo))
        invariant
            n == query@.len(),
            lo <= hi <= n,
            forall|k: int| 0 <= k < lo ==> is_query_ws(#[trigger] query@[k]),
        decreases hi - lo,
    {
        lo = lo + 1;
    }
    proof {
        lemma_ltrim_skip(query@.take(hi as int), lo as int);
        assert(trim_spec(query@) == query@.take(hi as int).skip(lo as int));
    }
    if lo == hi {
        proof {
            assert(query@.take(hi as int).skip(lo as int).len() == 0);
        }
        None
    } else {
        let t = query.substring_char(lo, hi);
        proof {
            assert(query@.subrange(lo as int, hi as int) =~= query@.take(hi as int).skip(
                lo as int,
            ));
        }
        Some(t.to_owned())
    }
}

/// Checks a rename: both paths nonempty, the source present, the
/// destination absent.  `old_exists` and `new_exists` report the
/// filesystem's answers.
pub fn validate_rename(
    old_path: &str,
    new_path: &str,
    old_exists: bool,
    new_exists: bool,
) -> (r: Result<(), String>)
    ensures
        r is Ok <==> (old_path@.len() > 0 && new_path@.len() > 0 && old_exists && !new_exists),
{
    if old_path.unicode_len() == 0 || new_path.unicode_len() == 0 {
        return Err("File paths cannot be empty".to_owned());
    }
    if !old_exists {
        let mut m = "Source file does not exist: ".to_owned();
        m.append(old_path);
        return Err(m);
    }
    if new_exists {
        let mut m = "Destination file already exists: ".to_owned();
        m.append(new_path);
        return Err(m);
    }
    Ok(())
}

} // verus!
