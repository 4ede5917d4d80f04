//! The watched-root registry and the watcher's event decisions.
//!
//! Roots are registered, paused, resumed and removed; every filesystem
//! event is judged against the registry: a removed root terminates its
//! watcher, a paused root drops the event, and only supported files are
//! indexed or deleted.  `lemma_removed_root_terminates` states the watcher
//! safety law: after a root is removed, no event on its behalf leads to an
//! index or delete call.

use vstd::prelude::*;

use crate::paths::{eq_str, ext_spec, file_name_of, file_name_spec, lower_ascii, lower_seq, split_name};

verus! {

/// The state of a watched root.
#[derive(Debug, Clone, Copy, PartialEq, Eq, Structural)]
pub enum WatchState {
    Active,
    Paused,
}

/// One watched root.
#[derive(Debug, Clone)]
pub struct WatchedFolder {
    /// The root's path.
    pub path: String,
    /// Whether events on the root are processed or dropped.
    pub state: WatchState,
}

/// A snapshot of one watched root, for callers.
#[derive(Debug, Clone)]
pub struct WatchedFolderInfo {
    /// The root's identifier: its path.
    pub id: String,
    /// The root's path.
    pub path: String,
    /// The root's final path component.
    pub name: String,
    /// Whether the root is active.
    pub is_active: bool,
}

/// Configuration for watch operations.
#[derive(Debug, Clone, Copy, PartialEq, Eq, Structural)]
pub struct WatchConfig {
    /// Whether descendants of a root are watched too.
    pub recursive: bool,
    /// Whether files already under a new root are indexed on registration.
    pub process_existing_files: bool,
}

impl Default for WatchConfig {
    /// Watches recursively and backfills existing files.
    fn default() -> (r: WatchConfig)
        ensures
            r.recursive,
            r.process_existing_files,
    {
        WatchConfig { recursive: true, process_existing_files: true }
    }
}

/// The kinds of filesystem event the watcher distinguishes.
#[derive(Debug, Clone, Copy, PartialEq, Eq, Structural)]
pub enum EventKind {
    Create,
    Modify,
    Remove,
    Other,
}

/// What the watcher does with one event.
#[derive(Debug, Clone, Copy, PartialEq, Eq, Structural)]
pub enum EventAction {
    /// Re-extract, re-embed and upsert the file.
    IndexFile,
    /// Delete the file's chunks from the store.
    RemoveFile,
    /// Ignore the event.
    Drop,
    /// The root is gone: the watcher stops.
    Terminate,
}

/// An extension the indexing path accepts, case-insensitively.
pub open spec fn supported_ext(e: Seq<char>) -> bool {
    let l = lower_seq(e);
    ||| l == "txt"@
    ||| l == "md"@
    ||| l == "rst"@
    ||| l == "log"@
    ||| l == "pdf"@
    ||| l == "docx"@
    ||| l == "xlsx"@
    ||| l == "pptx"@
    ||| l == "hwp"@
}

/// Whether the file at `p` is of a supported type.
pub open spec fn supported_spec(p: Seq<char>) -> bool {
    match ext_spec(file_name_spec(p)) {
        Some(e) => supported_ext(e),
        None => false,
    }
}

/// Whether the watcher indexes files with this path's extension.
pub fn is_supported_file(path: &str) -> (r: bool)
    ensures
        r == supported_spec(path@),
{
    let name = file_name_of(path);
    let (_stem, ext) = split_name(name.as_str());
    match ext {
        Some(e) => {
            let l = lower_ascii(e.as_str());
            let ls = l.as_str();
            eq_str(ls, "txt") || eq_str(ls, "md") || eq_str(ls, "rst") || eq_str(ls, "log")
                || eq_str(ls, "pdf") || eq_str(ls, "docx") || eq_str(ls, "xlsx") || eq_str(
                ls,
                "pptx",
            ) || eq_str(ls, "hwp")
        },
        None => false,
    }
}

/// Whether `a` is a strict ancestor directory of `b`.
pub open spec fn is_ancestor(a: Seq<char>, b: Seq<char>) -> bool {
    if a == seq!['/'] {
        b.len() > 1 && b[0] == '/'
    } else {
        b.len() > a.len() && b.take(a.len() as int) == a && b[a.len() as int] == '/'
    }
}

/// Whether two roots overlap: the same path, or one an ancestor of the
/// other.  Watching both would index files twice.
pub open spec fn overlapping(a: Seq<char>, b: Seq<char>) -> bool {
    a == b || is_ancestor(a, b) || is_ancestor(b, a)
}

/// Whether `b` is a strict ancestor directory of `a`.
fn is_ancestor_of(a: &str, b: &str) -> (r: bool)
    ensures
        r == is_ancestor(a@, b@),
{
    let na = a.unicode_len();
    let nb = b.unicode_len();
    if na == 1 && a.get_char(0) == '/' {
        proof {
            assert(a@ =~= seq!['/']);
        }
        return nb > 1 && b.get_char(0) == '/';
    }
    proof {
        assert(a@ != seq!['/']) by {
            if a@ == seq!['/'] {
                assert(a@.len() == 1 && a@[0] == '/');
            }
        }
    }
    if nb <= na {
        return false;
    }
    if b.get_char(na) != '/' {
        return false;
    }
    let prefix = b.substring_char(0, na);
    let r = eq_str(prefix, a);
    proof {
        assert(b@.subrange(0, na as int) =~= b@.take(na as int));
    }
    r
}

/// Whether two root paths overlap.
pub fn paths_overlap(a: &str, b: &str) -> (r: bool)
    ensures
        r == overlapping(a@, b@),
{
    eq_str(a, b) || is_ancestor_of(a, b) || is_ancestor_of(b, a)
}

/// Whether some root in `rs` has path `p`.
pub open spec fn spec_contains(rs: Seq<WatchedFolder>, p: Seq<char>) -> bool {
    exists|i: int| 0 <= i < rs.len() && (#[trigger] rs[i]).path@ == p
}

/// Whether some root in `rs` has path `p` in state Active.
pub open spec fn spec_active(rs: Seq<WatchedFolder>, p: Seq<char>) -> bool {
    exists|i: int| 0 <= i < rs.len() && (#[trigger] rs[i]).path@ == p && rs[i].state is Active
}

/// No two roots share a path.
pub open spec fn distinct_roots(rs: Seq<WatchedFolder>) -> bool {
    forall|i: int, j: int|
        0 <= i < j < rs.len() ==> (#[trigger] rs[i]).path@ != (#[trigger] rs[j]).path@
}

/// The registry with the root at `p` set to `st`.
pub open spec fn set_state(rs: Seq<WatchedFolder>, p: Seq<char>, st: WatchState) -> Seq<
    WatchedFolder,
> {
    rs.map_values(
        |f: WatchedFolder|
            if f.path@ == p {
                WatchedFolder { path: f.path, state: st }
            } else {
                f
            },
    )
}

/// The registry without the root at `p`.
pub open spec fn without_folder(rs: Seq<WatchedFolder>, p: Seq<char>) -> Seq<WatchedFolder>
    decreases rs.len(),
{
    if rs.len() == 0 {
        Seq::empty()
    } else if rs.last().path@ != p {
        without_folder(rs.drop_last(), p).push(rs.last())
    } else {
        without_folder(rs.drop_last(), p)
    }
}

/// What the watcher of `root` does with an event on `path`.
pub open spec fn decide_spec(
    rs: Seq<WatchedFolder>,
    root: Seq<char>,
    kind: EventKind,
    path: Seq<char>,
    is_file: bool,
) -> EventAction {
    if !spec_contains(rs, root) {
        EventAction::Terminate
    } else if !spec_active(rs, root) {
        EventAction::Drop
    } else {
        match kind {
            EventKind::Create | EventKind::Modify => if is_file && supported_spec(path) {
                EventAction::IndexFile
            } else {
                EventAction::Drop
            },
            EventKind::Remove => if supported_spec(path) {
                EventAction::RemoveFile
            } else {
                EventAction::Drop
            },
            EventKind::Other => EventAction::Drop,
        }
    }
}

/// The registry of watched roots.
pub struct WatchRegistry {
    folders: Vec<WatchedFolder>,
}

impl WatchRegistry {
    /// The registered roots, in registration order.
    pub closed spec fn roots(&self) -> Seq<WatchedFolder> {
        self.folders@
    }

    /// An empty registry.
    pub fn new() -> (r: WatchRegistry)
        ensures
            r.roots() == Seq::<WatchedFolder>::empty(),
    {
        WatchRegistry { folders: Vec::new() }
    }

    /// Whether `path` is a registered root.
    pub fn contains(&self, path: &str) -> (r: bool)
        ensures
            r == spec_contains(self.roots(), path@),
    {
        let mut i: usize = 0;
        while i < self.folders.len()
            invariant
                i <= self.folders.len(),
                forall|j: int| 0 <= j < i ==> (#[trigger] self.folders@[j]).path@ != path@,
            decreases self.folders.len() - i,
        {
            if eq_str(self.folders[i].path.as_str(), path) {
                proof {
                    assert((self.roots()[i as int]).path@ == path@);
                }
                return true;
            }
            i = i + 1;
        }
        false
    }

    /// Registers a root in state Active.  Fails, changing nothing, exactly
    /// when the path overlaps a watched root: the same path, an ancestor
    /// of one, or a descendant of one.
    pub fn register_folder(&mut self, path: &str) -> (r: Result<(), String>)
        requires
            distinct_roots(old(self).roots()),
        ensures
            distinct_roots(final(self).roots()),
            r is Ok <==> !(exists|i: int|
                0 <= i < old(self).roots().len() && overlapping(
                    (#[trigger] old(self).roots()[i]).path@,
                    path@,
                )),
            r is Ok ==> {
                &&& final(self).roots().len() == old(self).roots().len() + 1
                &&& final(self).roots().drop_last() == old(self).roots()
                &&& final(self).roots().last().path@ == path@
                &&& final(self).roots().last().state is Active
            },
            r is Err ==> final(self).roots() == old(self).roots(),
    {
        let mut i: usize = 0;
        while i < self.folders.len()
            invariant
                self.folders@ == old(self).folders@,
                distinct_roots(self.folders@),
                i <= self.folders.len(),
                forall|j: int|
                    0 <= j < i ==> !overlapping((#[trigger] self.folders@[j]).path@, path@),
            decreases self.folders.len() - i,
        {
            if paths_overlap(self.folders[i].path.as_str(), path) {
                proof {
                    assert(overlapping((self.roots()[i as int]).path@, path@));
                }
                return Err("Folder is already being watched".to_owned());
            }
            i = i + 1;
        }
        let folder = WatchedFolder { path: path.to_owned(), state: WatchState::Active };
        proof {
            assert(folder.path@ == path@);
        }
        self.folders.push(folder);
        proof {
            assert forall|i: int, j: int|
                0 <= i < j < self.folders@.len() implies (#[trigger] self.folders@[i]).path@ != (
            #[trigger] self.folders@[j]).path@ by {
                if j == self.folders@.len() - 1 {
                    assert(!overlapping((old(self).roots()[i]).path@, path@));
                }
            }
        }
        Ok(())
    }

    /// Sets the state of the root at `path`.  Fails, changing nothing,
    /// exactly when the path is not watched.
    fn set_folder_state(&mut self, path: &str, st: WatchState) -> (r: Result<(), String>)
        ensures
            r is Ok <==> spec_contains(old(self).roots(), path@),
            r is Ok ==> final(self).roots() == set_state(old(self).roots(), path@, st),
            r is Err ==> final(self).roots() == old(self).roots(),
            distinct_roots(old(self).roots()) ==> distinct_roots(final(self).roots()),
    {
        if !self.contains(path) {
            return Err("Folder is not being watched".to_owned());
        }
        let n = self.folders.len();
        let mut updated: Vec<WatchedFolder> = Vec::new();
        let mut i: usize = 0;
        while i < n
            invariant
                n == self.folders@.len(),
                i <= n,
                updated@.len() == i,
                forall|j: int|
                    0 <= j < i ==> #[trigger] updated@[j] == (if self.folders@[j].path@ == path@ {
                        WatchedFolder { path: self.folders@[j].path, state: st }
                    } else {
                        self.folders@[j]
                    }),
            decreases n - i,
    {
            let f = &self.folders[i];
            if eq_str(f.path.as_str(), path) {
                updated.push(WatchedFolder { path: f.path.clone(), state: st });
            } else {
                updated.push(WatchedFolder { path: f.path.clone(), state: f.state });
            }
            i = i + 1;
        }
        proof {
            assert(updated@ =~= set_state(old(self).roots(), path@, st));
            assert forall|a: int|
                0 <= a < updated@.len() implies (#[trigger] updated@[a]).path@ == old(
                self,
            ).roots()[a].path@ by {}
        }
        self.folders = updated;
        Ok(())
    }

    /// Pauses the root at `path`: its events are dropped, the OS watch
    /// stays.  Fails exactly when the path is not watched.
    pub fn pause_folder(&mut self, path: &str) -> (r: Result<(), String>)
        ensures
            r is Ok <==> spec_contains(old(self).roots(), path@),
            r is Ok ==> final(self).roots() == set_state(
                old(self).roots(),
                path@,
                WatchState::Paused,
            ),
            r is Err ==> final(self).roots() == old(self).roots(),
            distinct_roots(old(self).roots()) ==> distinct_roots(final(self).roots()),
    {
        self.set_folder_state(path, WatchState::Paused)
    }

    /// Resumes the root at `path`.  Fails exactly when the path is not
    /// watched.
    pub fn resume_folder(&mut self, path: &str) -> (r: Result<(), String>)
        ensures
            r is Ok <==> spec_contains(old(self).roots(), path@),
            r is Ok ==> final(self).roots() == set_state(
                old(self).roots(),
                path@,
                WatchState::Active,
            ),
            r is Err ==> final(self).roots() == old(self).roots(),
            distinct_roots(old(self).roots()) ==> distinct_roots(final(self).roots()),
    {
        self.set_folder_state(path, WatchState::Active)
    }

    /// Removes the root at `path` from the registry.  Fails, changing
    /// nothing, exactly when the path is not watched.  Removal does not
    /// touch the store's chunks.
    pub fn remove_folder(&mut self, path: &str) -> (r: Result<(), String>)
        ensures
            r is Ok <==> spec_contains(old(self).roots(), path@),
            r is Ok ==> final(self).roots() == without_folder(old(self).roots(), path@),
            r is Err ==> final(self).roots() == old(self).roots(),
            distinct_roots(old(self).roots()) ==> distinct_roots(final(self).roots()),
    {
        if !self.contains(path) {
            return Err("Folder is not being watched".to_owned());
        }
        let n = self.folders.len();
        let mut kept: Vec<WatchedFolder> = Vec::new();
        let mut i: usize = 0;
        while i < n
            invariant
                n == self.folders@.len(),
                i <= n,
                kept@ == without_folder(self.folders@.take(i as int), path@),
            decreases n - i,
        {
            proof {
                assert(self.folders@.take(i + 1).drop_last() =~= self.folders@.take(i as int));
            }
            let f = &self.folders[i];
            if !eq_str(f.path.as_str(), path) {
                kept.push(WatchedFolder { path: f.path.clone(), state: f.state });
            }
            i = i + 1;
        }
        proof {
            assert(self.folders@.take(n as int) =~= self.folders@);
            if distinct_roots(old(self).roots()) {
                lemma_without_folder_distinct(old(self).roots(), path@);
            }
        }
        self.folders = kept;
        Ok(())
    }

    /// A snapshot of the registry: one entry per root, in order.
    pub fn list_watched_folders(&self) -> (r: Vec<WatchedFolderInfo>)
        ensures
            r@.len() == self.roots().len(),
            forall|i: int|
                0 <= i < r@.len() ==> {
                    &&& (#[trigger] r@[i]).id@ == self.roots()[i].path@
                    &&& r@[i].path@ == self.roots()[i].path@
                    &&& r@[i].name@ == file_name_spec(self.roots()[i].path@)
                    &&& r@[i].is_active == (self.roots()[i].state is Active)
                },
    {
        let n = self.folders.len();
        let mut out: Vec<WatchedFolderInfo> = Vec::new();
        let mut i: usize = 0;
        while i < n
            invariant
                n == self.folders@.len(),
                i <= n,
                out@.len() == i,
                forall|j: int|
                    0 <= j < i ==> {
                        &&& (#[trigger] out@[j]).id@ == self.folders@[j].path@
                        &&& out@[j].path@ == self.folders@[j].path@
                        &&& out@[j].name@ == file_name_spec(self.folders@[j].path@)
                        &&& out@[j].is_active == (self.folders@[j].state is Active)
                    },
            decreases n - i,
        {
            let f = &self.folders[i];
            let active = match f.state {
                WatchState::Active => true,
                WatchState::Paused => false,
            };
            let info = WatchedFolderInfo {
                id: f.path.clone(),
                path: f.path.clone(),
                name: file_name_of(f.path.as_str()),
                is_active: active,
            };
            out.push(info);
            i = i + 1;
        }
        out
    }

    /// Judges one filesystem event for the watcher of `root`: terminate
    /// when the root is gone, drop when it is paused, index a supported
    /// file on create or modify, delete its chunks on remove.
    pub fn decide_event(&self, root: &str, kind: EventKind, path: &str, is_file: bool) -> (r:
        EventAction)
        ensures
            r == decide_spec(self.roots(), root@, kind, path@, is_file),
    {
        if !self.contains(root) {
            return EventAction::Terminate;
        }
        let mut active = false;
        let mut i: usize = 0;
        while i < self.folders.len()
            invariant
                i <= self.folders.len(),
                active == exists|j: int|
                    0 <= j < i && (#[trigger] self.folders@[j]).path@ == root@
                        && self.folders@[j].state is Active,
            decreases self.folders.len() - i,
        {
            let f = &self.folders[i];
            let f_active = match f.state {
                WatchState::Active => true,
                WatchState::Paused => false,
            };
            if f_active && eq_str(f.path.as_str(), root) {
                proof {
                    assert((self.folders@[i as int]).path@ == root@ && self.folders@[i as int].state
                        is Active);
                }
                active = true;
            }
            i = i + 1;
        }
        if !active {
            return EventAction::Drop;
        }
        match kind {
            EventKind::Create | EventKind::Modify => {
                if is_file && is_supported_file(path) {
                    EventAction::IndexFile
                } else {
                    EventAction::Drop
                }
            },
            EventKind::Remove => {
                if is_supported_file(path) {
                    EventAction::RemoveFile
                } else {
                    EventAction::Drop
                }
            },
            EventKind::Other => EventAction::Drop,
        }
    }
}

proof fn lemma_without_folder_membership(rs: Seq<WatchedFolder>, p: Seq<char>)
    ensures
        forall|i: int|
            0 <= i < without_folder(rs, p).len() ==> exists|j: int|
                0 <= j < rs.len() && #[trigger] without_folder(rs, p)[i] == rs[j],
    decreases rs.len(),
{
    if rs.len() > 0 {
        lemma_without_folder_membership(rs.drop_last(), p);
        let w = without_folder(rs, p);
        assert forall|i: int| 0 <= i < w.len() implies exists|j: int|
            0 <= j < rs.len() && #[trigger] w[i] == rs[j] by {
            let wd = without_folder(rs.drop_last(), p);
            if rs.last().path@ != p && i == w.len() - 1 {
                assert(w[i] == rs[rs.len() - 1]);
            } else {
                assert(w[i] == wd[i]);
                let j = choose|j: int| 0 <= j < rs.drop_last().len() && wd[i] == rs.drop_last()[j];
                assert(w[i] == rs[j]);
            }
        }
    }
}

proof fn lemma_without_folder_distinct(rs: Seq<WatchedFolder>, p: Seq<char>)
    requires
        distinct_roots(rs),
    ensures
        distinct_roots(without_folder(rs, p)),
    decreases rs.len(),
{
    if rs.len() > 0 {
        assert(distinct_roots(rs.drop_last())) by {
            assert forall|a: int, b: int|
                0 <= a < b < rs.drop_last().len() implies (#[trigger] rs.drop_last()[a]).path@
                != (#[trigger] rs.drop_last()[b]).path@ by {
                assert(rs[a] == rs.drop_last()[a] && rs[b] == rs.drop_last()[b]);
            }
        }
        lemma_without_folder_distinct(rs.drop_last(), p);
        if rs.last().path@ != p {
            lemma_without_folder_membership(rs.drop_last(), p);
            let w = without_folder(rs, p);
            let wd = without_folder(rs.drop_last(), p);
            assert forall|a: int, b: int|
                0 <= a < b < w.len() implies (#[trigger] w[a]).path@ != (#[trigger] w[b]).path@ by {
                if b < wd.len() {
                    assert(w[a] == wd[a] && w[b] == wd[b]);
                } else {
                    assert(w[b] == rs.last());
                    assert(w[a] == wd[a]);
                    let j = choose|j: int|
                        0 <= j < rs.drop_last().len() && wd[a] == rs.drop_last()[j];
                    assert(rs[j] == rs.drop_last()[j]);
                    assert(rs[j].path@ != rs[rs.len() - 1].path@);
                }
            }
        }
    }
}

/// Removing a root removes every entry with its path and no other.
proof fn lemma_without_folder_spares_others(rs: Seq<WatchedFolder>, p: Seq<char>)
    ensures
        forall|i: int|
            0 <= i < without_folder(rs, p).len() ==> (#[trigger] without_folder(rs, p)[i]).path@
                != p,
    decreases rs.len(),
{
    if rs.len() > 0 {
        lemma_without_folder_spares_others(rs.drop_last(), p);
        if rs.last().path@ != p {
            let w = without_folder(rs.drop_last(), p);
            assert forall|i: int|
                0 <= i < without_folder(rs, p).len() implies (#[trigger] without_folder(
                rs,
                p,
            )[i]).path@ != p by {
                if i < w.len() {
                    assert(without_folder(rs, p)[i] == w[i]);
                } else {
                    assert(without_folder(rs, p)[i] == rs.last());
                }
            }
        }
    }
}

/// Watcher safety: once a root is removed from the registry, every event
/// judged on its behalf terminates the watcher; none leads to an index or
/// delete call.
pub proof fn lemma_removed_root_terminates(
    rs: Seq<WatchedFolder>,
    root: Seq<char>,
    kind: EventKind,
    path: Seq<char>,
    is_file: bool,
)
    ensures
        !spec_contains(without_folder(rs, root), root),
        decide_spec(without_folder(rs, root), root, kind, path, is_file)
            == EventAction::Terminate,
{
    lemma_without_folder_spares_others(rs, root);
}

} // verus!
