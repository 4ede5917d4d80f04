//! The vector store's record model.
//!
//! A chunk record carries the ordinal of the chunk within its file, the
//! ingest timestamp, the owning file's path and name, the chunk's text, and
//! its embedding, modelled here by the embedding's dimension (the numeric
//! payload lives outside the verified core and never influences its logic).
//! The store itself is a table of records keyed by `file_path`: an upsert
//! deletes the file's prior generation and appends the new one — never one
//! stamped older than what the file already has — and a removal deletes
//! exactly the file's records.  `lemma_upsert_idempotent` states the upsert
//! law; delete locality is the `remove_file` contract itself.

use vstd::prelude::*;

use crate::errors::CoreError;
use crate::paths::{file_name_of, file_name_spec};

verus! {

/// One row of the `file_chunks` table.
#[derive(Debug, Clone)]
pub struct FileChunkSchema {
    /// The ordinal of the chunk within its owning file.
    pub chunk_id: u64,
    /// Seconds since the epoch at ingest.
    pub created_at: u64,
    /// The owning file's path: the sole key for upsert and delete.
    pub file_path: String,
    /// The final component of `file_path`, cached for display.
    pub file_name: String,
    /// The chunk's cleaned text.
    pub text: String,
    /// The dimension of the chunk's embedding vector.
    pub vector_dim: usize,
}

impl FileChunkSchema {
    /// Builds a record; the file name is derived from the path.
    pub fn new(chunk_id: u64, file_path: String, text: String, vector_dim: usize, created_at: u64)
        -> (r: FileChunkSchema)
        ensures
            r.chunk_id == chunk_id,
            r.created_at == created_at,
            r.file_path == file_path,
            r.file_name@ == file_name_spec(file_path@),
            r.text == text,
            r.vector_dim == vector_dim,
    {
        let file_name = file_name_of(file_path.as_str());
        FileChunkSchema { chunk_id, created_at, file_path, file_name, text, vector_dim }
    }

    /// An identical record.
    pub fn duplicate(&self) -> (r: FileChunkSchema)
        ensures
            r == *self,
    {
        FileChunkSchema {
            chunk_id: self.chunk_id,
            created_at: self.created_at,
            file_path: self.file_path.clone(),
            file_name: self.file_name.clone(),
            text: self.text.clone(),
            vector_dim: self.vector_dim,
        }
    }
}

/// Whether a record belongs to the file at `p`.
pub open spec fn owned_by(r: FileChunkSchema, p: Seq<char>) -> bool {
    r.file_path@ == p
}

/// A coherent generation of records for one file: keyed by the path, each
/// chunk id its position (0, 1, 2, … with no gaps), all embeddings of the
/// store's dimension, and one shared timestamp.
pub open spec fn coherent_generation(
    rs: Seq<FileChunkSchema>,
    p: Seq<char>,
    dim: int,
    created_at: int,
) -> bool {
    forall|i: int|
        0 <= i < rs.len() ==> {
            &&& (#[trigger] rs[i]).file_path@ == p
            &&& rs[i].chunk_id == i
            &&& rs[i].vector_dim == dim
            &&& rs[i].created_at == created_at
        }
}

/// The rows that do not belong to the file at `p`, in order.
pub open spec fn without_path(rs: Seq<FileChunkSchema>, p: Seq<char>) -> Seq<FileChunkSchema>
    decreases rs.len(),
{
    if rs.len() == 0 {
        Seq::empty()
    } else if rs.last().file_path@ != p {
        without_path(rs.drop_last(), p).push(rs.last())
    } else {
        without_path(rs.drop_last(), p)
    }
}

/// The rows that belong to the file at `p`, in order.
pub open spec fn rows_of(rs: Seq<FileChunkSchema>, p: Seq<char>) -> Seq<FileChunkSchema>
    decreases rs.len(),
{
    if rs.len() == 0 {
        Seq::empty()
    } else if rs.last().file_path@ == p {
        rows_of(rs.drop_last(), p).push(rs.last())
    } else {
        rows_of(rs.drop_last(), p)
    }
}

/// The store's contents after an upsert for `p`: every record of `p` gone,
/// the new generation appended.
pub open spec fn upserted(
    rs: Seq<FileChunkSchema>,
    p: Seq<char>,
    new: Seq<FileChunkSchema>,
) -> Seq<FileChunkSchema> {
    without_path(rs, p) + new
}

proof fn lemma_without_path_all(s: Seq<FileChunkSchema>, p: Seq<char>)
    requires
        forall|i: int| 0 <= i < s.len() ==> !owned_by(#[trigger] s[i], p),
    ensures
        without_path(s, p) == s,
    decreases s.len(),
{
    if s.len() > 0 {
        lemma_without_path_all(s.drop_last(), p);
        assert(s.drop_last().push(s.last()) =~= s);
    }
}

proof fn lemma_without_path_none(s: Seq<FileChunkSchema>, p: Seq<char>)
    requires
        forall|i: int| 0 <= i < s.len() ==> owned_by(#[trigger] s[i], p),
    ensures
        without_path(s, p) == Seq::<FileChunkSchema>::empty(),
    decreases s.len(),
{
    if s.len() > 0 {
        lemma_without_path_none(s.drop_last(), p);
    }
}

proof fn lemma_without_path_add(a: Seq<FileChunkSchema>, b: Seq<FileChunkSchema>, p: Seq<char>)
    ensures
        without_path(a + b, p) == without_path(a, p) + without_path(b, p),
    decreases b.len(),
{
    if b.len() == 0 {
        assert(a + b =~= a);
        assert(without_path(a, p) + without_path(b, p) =~= without_path(a, p));
    } else {
        lemma_without_path_add(a, b.drop_last(), p);
        assert((a + b).drop_last() =~= a + b.drop_last());
        assert((a + b).last() == b.last());
        if b.last().file_path@ != p {
            assert(without_path(a, p) + without_path(b, p) =~= (without_path(a, p)
                + without_path(b.drop_last(), p)).push(b.last()));
        }
    }
}

/// No row kept by `without_path` belongs to the removed file.
pub proof fn lemma_without_path_spares_others(s: Seq<FileChunkSchema>, p: Seq<char>)
    ensures
        forall|i: int|
            0 <= i < without_path(s, p).len() ==> !owned_by(#[trigger] without_path(s, p)[i], p),
    decreases s.len(),
{
    if s.len() > 0 {
        lemma_without_path_spares_others(s.drop_last(), p);
        if s.last().file_path@ != p {
            let w = without_path(s.drop_last(), p);
            assert forall|i: int|
                0 <= i < without_path(s, p).len() implies !owned_by(
                #[trigger] without_path(s, p)[i],
                p,
            ) by {
                if i < w.len() {
                    assert(without_path(s, p)[i] == w[i]);
                } else {
                    assert(without_path(s, p)[i] == s.last());
                }
            }
        }
    }
}

/// Delete locality: removing the rows of `p` leaves every other file's rows
/// exactly as they were.
pub proof fn lemma_remove_locality(s: Seq<FileChunkSchema>, p: Seq<char>, q: Seq<char>)
    requires
        q != p,
    ensures
        rows_of(without_path(s, p), q) == rows_of(s, q),
    decreases s.len(),
{
    if s.len() > 0 {
        lemma_remove_locality(s.drop_last(), p, q);
        if s.last().file_path@ != p {
            let w = without_path(s.drop_last(), p);
            assert(w.push(s.last()).drop_last() =~= w);
            assert(w.push(s.last()).last() == s.last());
        }
    }
}

proof fn lemma_rows_of_len(s: Seq<FileChunkSchema>, p: Seq<char>)
    ensures
        rows_of(s, p).len() <= s.len(),
    decreases s.len(),
{
    if s.len() > 0 {
        lemma_rows_of_len(s.drop_last(), p);
    }
}

proof fn lemma_rows_of_add(a: Seq<FileChunkSchema>, b: Seq<FileChunkSchema>, p: Seq<char>)
    ensures
        rows_of(a + b, p) == rows_of(a, p) + rows_of(b, p),
    decreases b.len(),
{
    if b.len() == 0 {
        assert(a + b =~= a);
        assert(rows_of(a, p) + rows_of(b, p) =~= rows_of(a, p));
    } else {
        lemma_rows_of_add(a, b.drop_last(), p);
        assert((a + b).drop_last() =~= a + b.drop_last());
        assert((a + b).last() == b.last());
        if b.last().file_path@ == p {
            assert(rows_of(a, p) + rows_of(b, p) =~= (rows_of(a, p) + rows_of(
                b.drop_last(),
                p,
            )).push(b.last()));
        }
    }
}

proof fn lemma_rows_of_none(s: Seq<FileChunkSchema>, p: Seq<char>)
    requires
        forall|i: int| 0 <= i < s.len() ==> !owned_by(#[trigger] s[i], p),
    ensures
        rows_of(s, p) == Seq::<FileChunkSchema>::empty(),
    decreases s.len(),
{
    if s.len() > 0 {
        lemma_rows_of_none(s.drop_last(), p);
    }
}

proof fn lemma_rows_of_all(s: Seq<FileChunkSchema>, p: Seq<char>)
    requires
        forall|i: int| 0 <= i < s.len() ==> owned_by(#[trigger] s[i], p),
    ensures
        rows_of(s, p) == s,
    decreases s.len(),
{
    if s.len() > 0 {
        lemma_rows_of_all(s.drop_last(), p);
        assert(s.drop_last().push(s.last()) =~= s);
    }
}

/// Chunk monotonicity at the store: after an upsert, the file's rows are
/// exactly the written generation, so its chunk ids are 0, 1, 2, … with no
/// gaps whenever the generation was coherent.
pub proof fn lemma_upsert_rows_of(
    rs: Seq<FileChunkSchema>,
    p: Seq<char>,
    new: Seq<FileChunkSchema>,
)
    requires
        forall|i: int| 0 <= i < new.len() ==> owned_by(#[trigger] new[i], p),
    ensures
        rows_of(upserted(rs, p, new), p) == new,
{
    let kept = without_path(rs, p);
    lemma_rows_of_add(kept, new, p);
    lemma_without_path_spares_others(rs, p);
    lemma_rows_of_none(kept, p);
    lemma_rows_of_all(new, p);
    assert(rows_of(kept, p) + rows_of(new, p) =~= new);
}

/// Upsert idempotence: writing the same generation for the same file twice
/// leaves the store exactly as writing it once does.
pub proof fn lemma_upsert_idempotent(
    rs: Seq<FileChunkSchema>,
    p: Seq<char>,
    new: Seq<FileChunkSchema>,
)
    requires
        forall|i: int| 0 <= i < new.len() ==> owned_by(#[trigger] new[i], p),
    ensures
        upserted(upserted(rs, p, new), p, new) == upserted(rs, p, new),
{
    let kept = without_path(rs, p);
    lemma_without_path_add(kept, new, p);
    lemma_without_path_spares_others(rs, p);
    lemma_without_path_all(kept, p);
    lemma_without_path_none(new, p);
    assert(without_path(kept, p) + without_path(new, p) =~= kept);
}

/// The in-memory model of the on-disk chunk table: a single logical table
/// over the record schema, with upsert-by-path and delete-by-path.
pub struct ChunkStore {
    records: Vec<FileChunkSchema>,
    dim: usize,
}

impl ChunkStore {
    /// The rows the store holds, in insertion order.
    pub closed spec fn rows(&self) -> Seq<FileChunkSchema> {
        self.records@
    }

    /// The embedding dimension fixed at creation.
    pub closed spec fn spec_dim(&self) -> int {
        self.dim as int
    }

    /// Opens an empty store with the given embedding dimension.
    pub fn new(dim: usize) -> (r: ChunkStore)
        ensures
            r.rows() == Seq::<FileChunkSchema>::empty(),
            r.spec_dim() == dim,
    {
        ChunkStore { records: Vec::new(), dim }
    }

    /// The embedding dimension.
    pub fn dim(&self) -> (r: usize)
        ensures
            r == self.spec_dim(),
    {
        self.dim
    }

    /// How many rows the store holds.
    pub fn count(&self) -> (r: usize)
        ensures
            r == self.rows().len(),
    {
        self.records.len()
    }

    /// How many rows belong to the file at `path`.
    pub fn count_by_path(&self, path: &str) -> (r: usize)
        ensures
            r == rows_of(self.rows(), path@).len(),
    {
        let mut n: usize = 0;
        let mut i: usize = 0;
        while i < self.records.len()
            invariant
                i <= self.records.len(),
                n == rows_of(self.records@.take(i as int), path@).len(),
            decreases self.records.len() - i,
        {
            proof {
                assert(self.records@.take(i + 1).drop_last() =~= self.records@.take(i as int));
                assert(rows_of(self.records@.take(i as int), path@).len() <= i) by {
                    lemma_rows_of_len(self.records@.take(i as int), path@);
                }
            }
            if crate::paths::eq_str(self.records[i].file_path.as_str(), path) {
                n = n + 1;
            }
            i = i + 1;
        }
        proof {
            assert(self.records@.take(self.records@.len() as int) =~= self.records@);
        }
        n
    }

    /// Whether any row belongs to the file at `path`.
    pub fn contains_path(&self, path: &str) -> (r: bool)
        ensures
            r == exists|i: int| 0 <= i < self.rows().len() && owned_by(#[trigger] self.rows()[i], path@),
    {
        let mut i: usize = 0;
        while i < self.records.len()
            invariant
                i <= self.records.len(),
                forall|j: int| 0 <= j < i ==> !owned_by(#[trigger] self.records@[j], path@),
            decreases self.records.len() - i,
        {
            if crate::paths::eq_str(self.records[i].file_path.as_str(), path) {
                proof {
                    assert(owned_by(self.rows()[i as int], path@));
                }
                return true;
            }
            i = i + 1;
        }
        false
    }

    /// Deletes exactly the rows owned by `path`; every other row stays, in
    /// order.  Deleting a file with no rows is not an error.
    pub fn remove_file(&mut self, path: &str)
        ensures
            final(self).rows() == without_path(old(self).rows(), path@),
            final(self).spec_dim() == old(self).spec_dim(),
    {
        let mut kept: Vec<FileChunkSchema> = Vec::new();
        let mut i: usize = 0;
        while i < self.records.len()
            invariant
                i <= self.records.len(),
                kept@ == without_path(self.records@.take(i as int), path@),
            decreases self.records.len() - i,
        {
            proof {
                assert(self.records@.take(i + 1).drop_last() =~= self.records@.take(i as int));
            }
            if !crate::paths::eq_str(self.records[i].file_path.as_str(), path) {
                kept.push(self.records[i].duplicate());
            }
            i = i + 1;
        }
        proof {
            assert(self.records@.take(self.records@.len() as int) =~= self.records@);
        }
        self.records = kept;
    }

    /// Replaces the file's rows with a new generation: deletes every row
    /// owned by `path`, then appends `new_rows` in order.  Rejects, leaving
    /// the store unchanged, a generation that is not coherent for `path` at
    /// the store's dimension — a wrong key, a gap in the chunk ids, a wrong
    /// embedding dimension, or a diverging timestamp — and one whose
    /// timestamp falls below the file's current generation: re-ingest keeps
    /// `created_at` monotonic per file.
    pub fn upsert_file(&mut self, path: &str, new_rows: Vec<FileChunkSchema>) -> (r: Result<
        (),
        CoreError,
    >)
        ensures
            r is Ok <==> ((exists|ts: int|
                coherent_generation(new_rows@, path@, old(self).spec_dim(), ts))
                && generation_not_older(old(self).rows(), path@, new_rows@)),
            r is Ok ==> final(self).rows() == upserted(old(self).rows(), path@, new_rows@),
            r is Err ==> *final(self) == *old(self),
            final(self).spec_dim() == old(self).spec_dim(),
    {
        let n = new_rows.len();
        if n == 0 {
            proof {
                assert(coherent_generation(new_rows@, path@, old(self).spec_dim(), 0));
            }
            self.remove_file(path);
            proof {
                assert(self.rows() =~= upserted(old(self).rows(), path@, new_rows@));
            }
            return Ok(());
        }
        let ts = new_rows[0].created_at;
        let mut i: usize = 0;
        while i < n
            invariant
                n == new_rows.len(),
                i <= n,
                self == old(self),
                ts == new_rows@[0].created_at,
                forall|j: int|
                    0 <= j < i ==> {
                        &&& (#[trigger] new_rows@[j]).file_path@ == path@
                        &&& new_rows@[j].chunk_id == j
                        &&& new_rows@[j].vector_dim == old(self).spec_dim()
                        &&& new_rows@[j].created_at == ts
                    },
            decreases n - i,
        {
            let row = &new_rows[i];
            if !crate::paths::eq_str(row.file_path.as_str(), path) {
                proof {
                    assert(!coherent_generation_any(new_rows@, path@, old(self).spec_dim()));
                }
                return Err(CoreError::generic("upsert: record key differs from file path".to_owned()));
            }
            if row.chunk_id != i as u64 {
                proof {
                    assert(!coherent_generation_any(new_rows@, path@, old(self).spec_dim()));
                }
                return Err(CoreError::generic("upsert: chunk ids must be 0, 1, 2, ...".to_owned()));
            }
            if row.vector_dim != self.dim {
                proof {
                    assert(!coherent_generation_any(new_rows@, path@, old(self).spec_dim()));
                }
                return Err(CoreError::generic("upsert: embedding dimension differs from the store's".to_owned()));
            }
            if row.created_at != ts {
                proof {
                    assert(!coherent_generation_any(new_rows@, path@, old(self).spec_dim()));
                }
                return Err(CoreError::generic("upsert: one generation shares one timestamp".to_owned()));
            }
            i = i + 1;
        }
        proof {
            assert(coherent_generation(new_rows@, path@, old(self).spec_dim(), ts as int));
        }
        let m = self.records.len();
        let mut k: usize = 0;
        while k < m
            invariant
                m == self.records@.len(),
                k <= m,
                self == old(self),
                n == new_rows@.len(),
                n > 0,
                ts == new_rows@[0].created_at,
                forall|j: int|
                    0 <= j < k && owned_by(#[trigger] self.records@[j], path@)
                        ==> self.records@[j].created_at <= ts,
            decreases m - k,
        {
            let row = &self.records[k];
            if crate::paths::eq_str(row.file_path.as_str(), path) && row.created_at > ts {
                proof {
                    assert(owned_by(self.records@[k as int], path@));
                    assert(!generation_not_older(old(self).rows(), path@, new_rows@));
                }
                return Err(CoreError::generic(
                    "upsert: a re-ingest may not carry an older timestamp".to_owned(),
                ));
            }
            k = k + 1;
        }
        self.remove_file(path);
        let mut j: usize = 0;
        let ghost kept = self.records@;
        proof {
            assert(kept + new_rows@.take(0) =~= kept);
        }
        while j < new_rows.len()
            invariant
                j <= new_rows.len(),
                self.records@ == kept + new_rows@.take(j as int),
                self.dim == old(self).dim,
            decreases new_rows.len() - j,
        {
            self.records.push(new_rows[j].duplicate());
            j = j + 1;
            proof {
                assert(kept + new_rows@.take(j as int) =~= (kept + new_rows@.take(j - 1)).push(
                    new_rows@[j - 1],
                ));
            }
        }
        proof {
            assert(new_rows@.take(new_rows@.len() as int) =~= new_rows@);
            assert(self.records@ =~= upserted(old(self).rows(), path@, new_rows@));
        }
        Ok(())
    }

    /// Copies of all rows, in order.
    pub fn rows_all(&self) -> (r: Vec<FileChunkSchema>)
        ensures
            r@ == self.rows(),
    {
        let mut out: Vec<FileChunkSchema> = Vec::new();
        let mut i: usize = 0;
        while i < self.records.len()
            invariant
                i <= self.records.len(),
                out@ == self.records@.take(i as int),
            decreases self.records.len() - i,
        {
            out.push(self.records[i].duplicate());
            i = i + 1;
            proof {
                assert(self.records@.take(i as int) =~= self.records@.take(i - 1).push(
                    self.records@[i - 1],
                ));
            }
        }
        proof {
            assert(self.records@.take(self.records@.len() as int) =~= self.records@);
        }
        out
    }

    /// Copies of the rows owned by `path`, in order.
    pub fn rows_for_path(&self, path: &str) -> (r: Vec<FileChunkSchema>)
        ensures
            r@ == rows_of(self.rows(), path@),
    {
        let mut out: Vec<FileChunkSchema> = Vec::new();
        let mut i: usize = 0;
        while i < self.records.len()
            invariant
                i <= self.records.len(),
                out@ == rows_of(self.records@.take(i as int), path@),
            decreases self.records.len() - i,
        {
            proof {
                assert(self.records@.take(i + 1).drop_last() =~= self.records@.take(i as int));
            }
            if crate::paths::eq_str(self.records[i].file_path.as_str(), path) {
                out.push(self.records[i].duplicate());
            }
            i = i + 1;
        }
        proof {
            assert(self.records@.take(self.records@.len() as int) =~= self.records@);
        }
        out
    }
}

/// Per-file timestamp monotonicity: a nonempty new generation must not be
/// older than any row the file already has, so a later re-ingest carries a
/// greater or equal `created_at`.
pub open spec fn generation_not_older(
    rs: Seq<FileChunkSchema>,
    p: Seq<char>,
    new: Seq<FileChunkSchema>,
) -> bool {
    new.len() == 0 || forall|i: int|
        0 <= i < rs.len() && owned_by(#[trigger] rs[i], p) ==> rs[i].created_at
            <= new[0].created_at
}

/// Whether some timestamp makes the generation coherent.
pub open spec fn coherent_generation_any(
    rs: Seq<FileChunkSchema>,
    p: Seq<char>,
    dim: int,
) -> bool {
    exists|ts: int| coherent_generation(rs, p, dim, ts)
}

/// Builds the chunk records of one file's generation: record `i` carries
/// chunk `i` of the text, so chunk ids are 0, 1, 2, … with no gaps.  Fails
/// exactly when the embeddings do not line up with the chunks or one of
/// them has the wrong dimension: a partial embedding batch is never stored.
pub fn build_records(
    file_path: &str,
    texts: &Vec<String>,
    embedding_dims: &Vec<usize>,
    dim: usize,
    created_at: u64,
) -> (r: Result<Vec<FileChunkSchema>, CoreError>)
    ensures
        r is Ok <==> (embedding_dims@.len() == texts@.len() && forall|i: int|
            0 <= i < embedding_dims@.len() ==> #[trigger] embedding_dims@[i] == dim),
        r matches Ok(rows) ==> {
            &&& rows@.len() == texts@.len()
            &&& coherent_generation(rows@, file_path@, dim as int, created_at as int)
            &&& forall|i: int| 0 <= i < rows@.len() ==> (#[trigger] rows@[i]).text == texts@[i]
            &&& forall|i: int|
                0 <= i < rows@.len() ==> (#[trigger] rows@[i]).file_name@ == file_name_spec(
                    file_path@,
                )
        },
{
    if embedding_dims.len() != texts.len() {
        return Err(CoreError::Llm(
            "embedding batch does not line up with the chunks".to_owned(),
        ));
    }
    let n = texts.len();
    let mut rows: Vec<FileChunkSchema> = Vec::new();
    let mut i: usize = 0;
    while i < n
        invariant
            n == texts@.len(),
            embedding_dims@.len() == n,
            i <= n,
            rows@.len() == i,
            forall|j: int| 0 <= j < i ==> #[trigger] embedding_dims@[j] == dim,
            forall|j: int|
                0 <= j < i ==> {
                    &&& (#[trigger] rows@[j]).file_path@ == file_path@
                    &&& rows@[j].chunk_id == j
                    &&& rows@[j].vector_dim == dim
                    &&& rows@[j].created_at == created_at
                    &&& rows@[j].text == texts@[j]
                    &&& rows@[j].file_name@ == file_name_spec(file_path@)
                },
        decreases n - i,
    {
        if embedding_dims[i] != dim {
            return Err(CoreError::Llm(
                "an embedding has the wrong dimension; nothing was stored".to_owned(),
            ));
        }
        let row = FileChunkSchema::new(
            i as u64,
            file_path.to_owned(),
            texts[i].clone(),
            dim,
            created_at,
        );
        rows.push(row);
        i = i + 1;
    }
    Ok(rows)
}

} // verus!
