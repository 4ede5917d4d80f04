//! Directory scanning: options, per-category statistics and scan results.
//!
//! The traversal itself walks the filesystem and lives outside the verified
//! core; every classification and bookkeeping rule it applies is here.

use vstd::prelude::*;

use crate::category::FileCategory;
use crate::errors::CoreError;
use crate::fmt_util::{
    dec_spec, file_size_spec, format_file_size, pad_left, pad_left_spec, usize_str,
};
use crate::sys::now_unix_secs;

verus! {

/// Options steering a scan.
#[derive(Debug, Clone)]
pub struct ScanOptions {
    /// Whether subdirectories are scanned.
    pub recursive: bool,
    /// The deepest level entered; unlimited when absent.
    pub max_depth: Option<usize>,
    /// Whether symbolic links are followed.
    pub follow_symlinks: bool,
    /// Files larger than this many bytes are skipped; unlimited when absent.
    pub max_file_size: Option<u64>,
}

impl Default for ScanOptions {
    /// Recursive, unlimited depth and size, links not followed.
    fn default() -> (r: ScanOptions)
        ensures
            r.recursive,
            r.max_depth is None,
            !r.follow_symlinks,
            r.max_file_size is None,
    {
        ScanOptions { recursive: true, max_depth: None, follow_symlinks: false, max_file_size: None }
    }
}

impl ScanOptions {
    /// Options with the default values.
    pub fn new() -> (r: ScanOptions)
        ensures
            r.recursive,
            r.max_depth is None,
            !r.follow_symlinks,
            r.max_file_size is None,
    {
        ScanOptions::default()
    }

    /// Sets whether subdirectories are scanned.
    pub fn with_recursive(self, recursive: bool) -> (r: ScanOptions)
        ensures
            r == (ScanOptions { recursive, ..self }),
    {
        ScanOptions { recursive, ..self }
    }

    /// Caps the depth.
    pub fn with_max_depth(self, depth: usize) -> (r: ScanOptions)
        ensures
            r == (ScanOptions { max_depth: Some(depth), ..self }),
    {
        ScanOptions { max_depth: Some(depth), ..self }
    }

    /// Sets whether symbolic links are followed.
    pub fn with_follow_symlinks(self, follow: bool) -> (r: ScanOptions)
        ensures
            r == (ScanOptions { follow_symlinks: follow, ..self }),
    {
        ScanOptions { follow_symlinks: follow, ..self }
    }

    /// Caps the file size.
    pub fn with_max_file_size(self, size: u64) -> (r: ScanOptions)
        ensures
            r == (ScanOptions { max_file_size: Some(size), ..self }),
    {
        ScanOptions { max_file_size: Some(size), ..self }
    }

    /// Whether a file of `size` bytes is processed.
    pub fn should_process_file_size(&self, size: u64) -> (r: bool)
        ensures
            r == match self.max_file_size {
                Some(m) => size <= m,
                None => true,
            },
    {
        match self.max_file_size {
            Some(m) => size <= m,
            None => true,
        }
    }

    /// Whether a directory at `depth` is entered.
    pub fn should_process_depth(&self, depth: usize) -> (r: bool)
        ensures
            r == match self.max_depth {
                Some(m) => depth < m,
                None => true,
            },
    {
        match self.max_depth {
            Some(m) => depth < m,
            None => true,
        }
    }

    /// Whether an entry is followed, given whether it is a symbolic link.
    pub fn should_follow_symlink(&self, is_symlink: bool) -> (r: bool)
        ensures
            r == (!is_symlink || self.follow_symlinks),
    {
        !is_symlink || self.follow_symlinks
    }
}

/// Statistics of one file category.
#[derive(Debug, Clone, Copy, PartialEq, Eq, Structural)]
pub struct CategoryStats {
    /// How many files fell into the category.
    pub count: usize,
    /// Their combined size in bytes.
    pub total_size: u64,
    /// How many of them the extractors can read.
    pub supported_count: usize,
    /// The combined size of the readable ones.
    pub supported_size: u64,
}

impl Default for CategoryStats {
    /// No files seen yet.
    fn default() -> (r: CategoryStats)
        ensures
            r == (CategoryStats { count: 0, total_size: 0, supported_count: 0, supported_size: 0 }),
    {
        CategoryStats { count: 0, total_size: 0, supported_count: 0, supported_size: 0 }
    }
}

impl CategoryStats {
    /// Empty statistics.
    pub fn new() -> (r: CategoryStats)
        ensures
            r == (CategoryStats { count: 0, total_size: 0, supported_count: 0, supported_size: 0 }),
    {
        CategoryStats::default()
    }

    /// Counts one file of `size` bytes.
    pub fn add_file(&mut self, size: u64, is_supported: bool)
        requires
            old(self).count < usize::MAX,
            old(self).total_size + size <= u64::MAX,
            old(self).supported_count < usize::MAX,
            old(self).supported_size + size <= u64::MAX,
        ensures
            final(self).count == old(self).count + 1,
            final(self).total_size == old(self).total_size + size,
            is_supported ==> final(self).supported_count == old(self).supported_count + 1
                && final(self).supported_size == old(self).supported_size + size,
            !is_supported ==> final(self).supported_count == old(self).supported_count && final(self).supported_size == old(self).supported_size,
    {
        self.count = self.count + 1;
        self.total_size = self.total_size + size;
        if is_supported {
            self.supported_count = self.supported_count + 1;
            self.supported_size = self.supported_size + size;
        }
    }

    /// Whether any file fell into the category.
    pub fn has_files(&self) -> (r: bool)
        ensures
            r == (self.count > 0),
    {
        self.count > 0
    }

    /// Whether any readable file fell into the category.
    pub fn has_supported_files(&self) -> (r: bool)
        ensures
            r == (self.supported_count > 0),
    {
        self.supported_count > 0
    }
}

/// Per-category entries ranked by file count, largest first; ties keep
/// their earlier order deterministically by comparing nothing further.
pub open spec fn sorted_by_count(s: Seq<(FileCategory, CategoryStats)>) -> bool {
    forall|i: int, j: int| 0 <= i < j < s.len() ==> (#[trigger] s[i]).1.count >= (#[trigger] s[j]).1.count
}

/// The complete result of one scan.
#[derive(Debug, Clone)]
pub struct ScanResults {
    /// The scanned root.
    pub scanned_path: String,
    /// Statistics per category, in order of first appearance.
    pub categories: Vec<(FileCategory, CategoryStats)>,
    /// How many files were seen.
    pub total_files: usize,
    /// Their combined size in bytes.
    pub total_size: u64,
    /// How many of them the extractors can read.
    pub total_supported: usize,
    /// The combined size of the readable ones.
    pub total_supported_size: u64,
    /// How many entries could not be read.
    pub error_count: usize,
    /// Seconds since the epoch when the scan ran.
    pub scan_timestamp: u64,
}

/// The index of `cat` among the entries, or -1.
pub open spec fn cat_index(s: Seq<(FileCategory, CategoryStats)>, cat: FileCategory) -> int
    decreases s.len(),
{
    if s.len() == 0 {
        -1
    } else if s.last().0 == cat {
        s.len() - 1
    } else {
        cat_index(s.drop_last(), cat)
    }
}

impl ScanResults {
    /// Empty results for a root, stamped with the current time.
    pub fn new(path: String) -> (r: ScanResults)
        ensures
            r.scanned_path == path,
            r.categories@ == Seq::<(FileCategory, CategoryStats)>::empty(),
            r.total_files == 0,
            r.total_size == 0,
            r.total_supported == 0,
            r.total_supported_size == 0,
            r.error_count == 0,
    {
        ScanResults {
            scanned_path: path,
            categories: Vec::new(),
            total_files: 0,
            total_size: 0,
            total_supported: 0,
            total_supported_size: 0,
            error_count: 0,
            scan_timestamp: now_unix_secs(),
        }
    }

    /// Counts one file under its category and in the totals.
    pub fn add_file(&mut self, category: FileCategory, size: u64, is_supported: bool)
        requires
            old(self).total_files < usize::MAX,
            old(self).total_size + size <= u64::MAX,
            old(self).total_supported < usize::MAX,
            old(self).total_supported_size + size <= u64::MAX,
            forall|i: int|
                0 <= i < old(self).categories@.len() ==> {
                    &&& (#[trigger] old(self).categories@[i]).1.count < usize::MAX
                    &&& old(self).categories@[i].1.total_size + size <= u64::MAX
                    &&& old(self).categories@[i].1.supported_count < usize::MAX
                    &&& old(self).categories@[i].1.supported_size + size <= u64::MAX
                },
        ensures
            final(self).scanned_path == old(self).scanned_path,
            final(self).scan_timestamp == old(self).scan_timestamp,
            final(self).error_count == old(self).error_count,
            final(self).total_files == old(self).total_files + 1,
            final(self).total_size == old(self).total_size + size,
            is_supported ==> final(self).total_supported == old(self).total_supported + 1 && final(self).total_supported_size == old(self).total_supported_size + size,
            !is_supported ==> final(self).total_supported == old(self).total_supported && final(self).total_supported_size == old(self).total_supported_size,
            cat_index(old(self).categories@, category) < 0 ==> {
                &&& final(self).categories@.len() == old(self).categories@.len() + 1
                &&& final(self).categories@.drop_last() == old(self).categories@
                &&& final(self).categories@.last().0 == category
                &&& final(self).categories@.last().1.count == 1
                &&& final(self).categories@.last().1.total_size == size
            },
            cat_index(old(self).categories@, category) >= 0 ==> {
                &&& final(self).categories@.len() == old(self).categories@.len()
                &&& exists|i: int|
                    {
                        &&& 0 <= i < old(self).categories@.len()
                        &&& (#[trigger] old(self).categories@[i]).0 == category
                        &&& final(self).categories@[i].1.count == old(self).categories@[i].1.count
                            + 1
                        &&& final(self).categories@[i].1.total_size == old(self).categories@[i].1.total_size + size
                        &&& forall|j: int|
                            0 <= j < old(self).categories@.len() && j != i
                                ==> #[trigger] final(self).categories@[j] == old(self).categories@[j]
                    }
            },
    {
        let n = self.categories.len();
        let mut i: usize = 0;
        let mut found = false;
        while i < n && !found
            invariant
                n == self.categories@.len(),
                i <= n,
                !found ==> forall|j: int| 0 <= j < i ==> (#[trigger] self.categories@[j]).0 != category,
                found ==> i < n && self.categories@[i as int].0 == category,
            decreases n - i + (if found { 0int } else { 1int }),
        {
            if self.categories[i].0 == category {
                found = true;
            } else {
                i = i + 1;
            }
        }
        if found {
            let mut updated: Vec<(FileCategory, CategoryStats)> = Vec::new();
            let mut j: usize = 0;
            while j < n
                invariant
                    n == self.categories@.len(),
                    i < n,
                    j <= n,
                    updated@.len() == j,
                    self.categories@[i as int].0 == category,
                    self.categories@[i as int].1.count < usize::MAX,
                    self.categories@[i as int].1.total_size + size <= u64::MAX,
                    self.categories@[i as int].1.supported_count < usize::MAX,
                    self.categories@[i as int].1.supported_size + size <= u64::MAX,
                    forall|m: int| 0 <= m < j && m != i ==> #[trigger] updated@[m] == self.categories@[m],
                    i < j ==> {
                        &&& updated@[i as int].0 == category
                        &&& updated@[i as int].1.count == self.categories@[i as int].1.count + 1
                        &&& updated@[i as int].1.total_size == self.categories@[i as int].1.total_size + size
                    },
                decreases n - j,
            {
                let entry = self.categories[j];
                if j == i {
                    let mut st = entry.1;
                    st.add_file(size, is_supported);
                    updated.push((entry.0, st));
                } else {
                    updated.push(entry);
                }
                j = j + 1;
            }
            self.categories = updated;
            proof {
                assert(0 <= i < old(self).categories@.len() && (old(self).categories@[i as int]).0
                    == category && self.categories@[i as int].1.count == old(self).categories@[i as int].1.count + 1 && self.categories@[i as int].1.total_size
                    == old(self).categories@[i as int].1.total_size + size && forall|j: int|
                    0 <= j < old(self).categories@.len() && j != i
                        ==> #[trigger] self.categories@[j] == old(self).categories@[j]);
                lemma_cat_index_found(old(self).categories@, category, i as int);
            }
        } else {
            let mut st = CategoryStats::new();
            st.add_file(size, is_supported);
            self.categories.push((category, st));
            proof {
                assert(self.categories@.drop_last() =~= old(self).categories@);
                lemma_cat_index_missing(old(self).categories@, category);
            }
        }
        self.total_files = self.total_files + 1;
        self.total_size = self.total_size + size;
        if is_supported {
            self.total_supported = self.total_supported + 1;
            self.total_supported_size = self.total_supported_size + size;
        }
    }

    /// Counts one unreadable entry.
    pub fn add_error(&mut self)
        requires
            old(self).error_count < usize::MAX,
        ensures
            *final(self) == (ScanResults { error_count: (old(self).error_count + 1) as usize, ..*old(self) }),
    {
        self.error_count = self.error_count + 1;
    }

    /// Whether any readable file was found.
    pub fn has_supported_files(&self) -> (r: bool)
        ensures
            r == (self.total_supported > 0),
    {
        self.total_supported > 0
    }

    /// Whether any entry could not be read.
    pub fn has_errors(&self) -> (r: bool)
        ensures
            r == (self.error_count > 0),
    {
        self.error_count > 0
    }

    /// The per-category entries ranked by file count, largest first.
    pub fn categories_by_count(&self) -> (r: Vec<(FileCategory, CategoryStats)>)
        ensures
            sorted_by_count(r@),
            r@.to_multiset() == self.categories@.to_multiset(),
            r@.len() == self.categories@.len(),
    {
        let mut out: Vec<(FileCategory, CategoryStats)> = Vec::new();
        let mut i: usize = 0;
        proof {
            broadcast use vstd::seq_lib::group_to_multiset_ensures;

            assert(self.categories@.take(0) =~= Seq::<(FileCategory, CategoryStats)>::empty());
            assert(out@.to_multiset() =~= self.categories@.take(0).to_multiset());
        }
        while i < self.categories.len()
            invariant
                i <= self.categories.len(),
                out@.len() == i,
                sorted_by_count(out@),
                out@.to_multiset() == self.categories@.take(i as int).to_multiset(),
            decreases self.categories.len() - i,
        {
            let x = self.categories[i];
            let mut pos: usize = 0;
            while pos < out.len() && out[pos].1.count >= x.1.count
                invariant
                    pos <= out.len(),
                    forall|m: int| 0 <= m < pos ==> (#[trigger] out@[m]).1.count >= x.1.count,
                decreases out.len() - pos,
            {
                pos = pos + 1;
            }
            let ghost before = out@;
            out.insert(pos, x);
            proof {
                broadcast use vstd::seq_lib::group_to_multiset_ensures;

                before.insert_ensures(pos as int, x);
                assert forall|a: int, b: int|
                    0 <= a < b < out@.len() implies (#[trigger] out@[a]).1.count >= (
                #[trigger] out@[b]).1.count by {
                    if a < pos && b < pos {
                        assert(out@[a] == before[a] && out@[b] == before[b]);
                    } else if a < pos && b == pos {
                        assert(out@[a] == before[a]);
                    } else if a < pos && b > pos {
                        assert(out@[a] == before[a] && out@[b] == before[b - 1]);
                    } else if a == pos {
                        assert(out@[b] == before[b - 1]);
                        assert(pos < before.len() ==> !(before[pos as int].1.count >= x.1.count));
                    } else {
                        assert(out@[a] == before[a - 1] && out@[b] == before[b - 1]);
                    }
                }
                assert(out@ =~= before.take(pos as int) + (seq![x] + before.skip(pos as int)));
                vstd::seq_lib::lemma_multiset_commutative(
                    before.take(pos as int),
                    seq![x] + before.skip(pos as int),
                );
                vstd::seq_lib::lemma_multiset_commutative(seq![x], before.skip(pos as int));
                vstd::seq_lib::lemma_multiset_commutative(
                    before.take(pos as int),
                    before.skip(pos as int),
                );
                assert(before.take(pos as int) + before.skip(pos as int) =~= before);
                assert(seq![x] =~= Seq::<(FileCategory, CategoryStats)>::empty().push(x));
                assert(seq![x].to_multiset() =~= vstd::multiset::Multiset::<
                    (FileCategory, CategoryStats),
                >::empty().insert(x));
                assert(out@.to_multiset() =~= before.to_multiset().insert(x));
                assert(self.categories@.take(i + 1) =~= self.categories@.take(i as int).push(x));
            }
            i = i + 1;
        }
        proof {
            assert(self.categories@.take(self.categories@.len() as int) =~= self.categories@);
        }
        out
    }
}

proof fn lemma_cat_index_found(s: Seq<(FileCategory, CategoryStats)>, cat: FileCategory, i: int)
    requires
        0 <= i < s.len(),
        s[i].0 == cat,
    ensures
        cat_index(s, cat) >= 0,
    decreases s.len(),
{
    if s.last().0 != cat {
        assert(i < s.len() - 1);
        assert(s.drop_last()[i] == s[i]);
        lemma_cat_index_found(s.drop_last(), cat, i);
    }
}

proof fn lemma_cat_index_missing(s: Seq<(FileCategory, CategoryStats)>, cat: FileCategory)
    requires
        forall|i: int| 0 <= i < s.len() ==> (#[trigger] s[i]).0 != cat,
    ensures
        cat_index(s, cat) < 0,
    decreases s.len(),
{
    if s.len() > 0 {
        lemma_cat_index_missing(s.drop_last(), cat);
    }
}

/// The scanner: holds the options; the filesystem walk itself happens at
/// the caller's edge and feeds `ScanResults::add_file`.
pub struct DirectoryScanner {
    /// The options the scan follows.
    pub options: ScanOptions,
}

impl DirectoryScanner {
    /// A scanner with the default options.
    pub fn new() -> (r: DirectoryScanner)
        ensures
            r.options.recursive,
            r.options.max_depth is None,
            !r.options.follow_symlinks,
            r.options.max_file_size is None,
    {
        DirectoryScanner { options: ScanOptions::default() }
    }

    /// A scanner with the given options.
    pub fn with_options(options: ScanOptions) -> (r: DirectoryScanner)
        ensures
            r.options == options,
    {
        DirectoryScanner { options }
    }

    /// Checks that a scan target is usable.  `exists` and `is_dir` report
    /// the filesystem's answers for `path`; valid exactly when the path is
    /// an existing directory.
    pub fn validate_scan_path(&self, path: &str, exists_on_disk: bool, is_dir: bool) -> (r: Result<
        (),
        CoreError,
    >)
        ensures
            r is Ok <==> (exists_on_disk && is_dir),
            !exists_on_disk ==> (r matches Err(CoreError::PathNotFound { path: p }) && p@ == path@),
            exists_on_disk && !is_dir ==> r matches Err(CoreError::Generic { .. }),
    {
        if !exists_on_disk {
            return Err(CoreError::path_not_found(path.to_owned()));
        }
        if !is_dir {
            let mut m = "Path '".to_owned();
            m.append(path);
            m.append("' is not a directory");
            return Err(CoreError::generic(m));
        }
        Ok(())
    }
}


/// The scan summary's first line.
pub open spec fn scan_header_spec(r: ScanResults) -> Seq<char> {
    "\u{1F4C1} Scan Results for: "@ + r.scanned_path@ + "\n"@
}

/// A truncated one-decimal percentage: `part` out of `whole`.
pub open spec fn percent_spec(part: int, whole: int) -> Seq<char> {
    if whole == 0 {
        "0.0"@
    } else {
        dec_spec(part * 1000 / whole / 10) + "."@ + dec_spec(part * 1000 / whole % 10)
    }
}

/// Renders a truncated one-decimal percentage.
pub fn percent_str(part: usize, whole: usize) -> (r: String)
    requires
        part <= whole,
        whole < 0x1000_0000_0000,
    ensures
        r@ == percent_spec(part as int, whole as int),
{
    if whole == 0 {
        return "0.0".to_owned();
    }
    let p64: u64 = part as u64;
    let w64: u64 = whole as u64;
    let milli = p64 * 1000 / w64;
    let mut s = crate::fmt_util::u64_str(milli / 10);
    s.append(".");
    let f = crate::fmt_util::u64_str(milli % 10);
    s.append(f.as_str());
    proof {
        assert(s@ =~= percent_spec(part as int, whole as int));
    }
    s
}

/// One row of the category table.
pub open spec fn scan_row_spec(category: FileCategory, stats: CategoryStats) -> Seq<char> {
    let desc: Seq<char> = match category {
        FileCategory::Documents => "Document files"@,
        FileCategory::Data => "Structured data files"@,
        FileCategory::Unsupported => "Unsupported files"@,
    };
    "\u{2502} "@ + crate::fmt_util::pad_right_spec(desc, 19) + " \u{2502} "@ + pad_left_spec(
        dec_spec(stats.count as int),
        7,
    ) + " \u{2502} "@ + pad_left_spec(file_size_spec(stats.total_size as int), 8) + " \u{2502} "@
        + pad_left_spec(dec_spec(stats.supported_count as int), 11) + " \u{2502} "@
        + pad_left_spec(
        percent_spec(stats.supported_count as int, stats.count as int) + "%"@,
        13,
    ) + " \u{2502}\n"@
}

impl ScanResults {
    /// Renders a byte count for people.
    pub fn format_size(size: u64) -> (r: String)
        ensures
            r@ == file_size_spec(size as int),
    {
        format_file_size(size)
    }

    /// One row of the category table.
    fn scan_row(category: FileCategory, stats: &CategoryStats) -> (r: String)
        requires
            stats.supported_count <= stats.count,
            stats.count < 0x1000_0000_0000,
        ensures
            r@ == scan_row_spec(category, *stats),
    {
        let desc = category.description();
        let mut s = "\u{2502} ".to_owned();
        let p = crate::fmt_util::pad_right(desc, 19);
        s.append(p.as_str());
        s.append(" \u{2502} ");
        let c = usize_str(stats.count);
        let p = pad_left(c.as_str(), 7);
        s.append(p.as_str());
        s.append(" \u{2502} ");
        let sz = format_file_size(stats.total_size);
        let p = pad_left(sz.as_str(), 8);
        s.append(p.as_str());
        s.append(" \u{2502} ");
        let c = usize_str(stats.supported_count);
        let p = pad_left(c.as_str(), 11);
        s.append(p.as_str());
        s.append(" \u{2502} ");
        let mut pc = percent_str(stats.supported_count, stats.count);
        pc.append("%");
        let p = pad_left(pc.as_str(), 13);
        s.append(p.as_str());
        s.append(" \u{2502}\n");
        s
    }

    /// Renders the scan for people: header, overall summary, the table of
    /// categories ranked by count, and a conclusion.
    pub fn format_summary(&self) -> (r: String)
        requires
            self.total_supported <= self.total_files,
            self.total_files < 0x1000_0000_0000,
            forall|i: int|
                0 <= i < self.categories@.len() ==> {
                    &&& (#[trigger] self.categories@[i]).1.supported_count
                        <= self.categories@[i].1.count
                    &&& self.categories@[i].1.count < 0x1000_0000_0000
                },
        ensures
            r@.len() >= scan_header_spec(*self).len(),
            r@.take(scan_header_spec(*self).len() as int) == scan_header_spec(*self),
    {
        let mut s = "\u{1F4C1} Scan Results for: ".to_owned();
        s.append(self.scanned_path.as_str());
        s.append("\n");
        let ghost header = s@;
        proof {
            assert(header == scan_header_spec(*self));
        }
        let mut rest = String::new();
        rest.append("\u{1F552} Scanned at: ");
        #[verifier::truncate]
        let ts = self.scan_timestamp as i64;
        if ts >= 0 {
            let t = crate::sys::format_utc(ts);
            rest.append(t.as_str());
        }
        rest.append(" UTC\n\n");
        rest.append("\u{1F4CA} OVERALL SUMMARY\n");
        rest.append("Total Files: ");
        let c = usize_str(self.total_files);
        rest.append(c.as_str());
        rest.append("\nTotal Size: ");
        let sz = format_file_size(self.total_size);
        rest.append(sz.as_str());
        rest.append("\nSupported Files: ");
        let c = usize_str(self.total_supported);
        rest.append(c.as_str());
        rest.append(" (");
        let pc = percent_str(self.total_supported, self.total_files);
        rest.append(pc.as_str());
        rest.append("%)\nSupported Size: ");
        let sz = format_file_size(self.total_supported_size);
        rest.append(sz.as_str());
        rest.append("\n");
        if self.error_count > 0 {
            rest.append("\u{26A0}\u{FE0F}  Errors encountered: ");
            let c = usize_str(self.error_count);
            rest.append(c.as_str());
            rest.append("\n");
        }
        if self.categories.len() > 0 {
            rest.append("\n\u{1F4CB} BY CATEGORY\n");
            rest.append(
                "\u{250C}\u{2500}\u{2500}\u{2500}\u{2500}\u{2500}\u{2500}\u{2500}\u{2500}\u{2500}\u{2500}\u{2500}\u{2500}\u{2500}\u{2500}\u{2500}\u{2500}\u{2500}\u{2500}\u{2500}\u{2500}\u{2500}\u{252C}\u{2500}\u{2500}\u{2500}\u{2500}\u{2500}\u{2500}\u{2500}\u{2500}\u{2500}\u{252C}\u{2500}\u{2500}\u{2500}\u{2500}\u{2500}\u{2500}\u{2500}\u{2500}\u{2500}\u{2500}\u{252C}\u{2500}\u{2500}\u{2500}\u{2500}\u{2500}\u{2500}\u{2500}\u{2500}\u{2500}\u{2500}\u{2500}\u{2500}\u{2500}\u{252C}\u{2500}\u{2500}\u{2500}\u{2500}\u{2500}\u{2500}\u{2500}\u{2500}\u{2500}\u{2500}\u{2500}\u{2500}\u{2500}\u{2500}\u{2500}\u{2510}\n",
            );
            rest.append(
                "\u{2502} Category            \u{2502}  Count  \u{2502}   Size   \u{2502}  Supported  \u{2502}  Support %    \u{2502}\n",
            );
            rest.append(
                "\u{251C}\u{2500}\u{2500}\u{2500}\u{2500}\u{2500}\u{2500}\u{2500}\u{2500}\u{2500}\u{2500}\u{2500}\u{2500}\u{2500}\u{2500}\u{2500}\u{2500}\u{2500}\u{2500}\u{2500}\u{2500}\u{2500}\u{253C}\u{2500}\u{2500}\u{2500}\u{2500}\u{2500}\u{2500}\u{2500}\u{2500}\u{2500}\u{253C}\u{2500}\u{2500}\u{2500}\u{2500}\u{2500}\u{2500}\u{2500}\u{2500}\u{2500}\u{2500}\u{253C}\u{2500}\u{2500}\u{2500}\u{2500}\u{2500}\u{2500}\u{2500}\u{2500}\u{2500}\u{2500}\u{2500}\u{2500}\u{2500}\u{253C}\u{2500}\u{2500}\u{2500}\u{2500}\u{2500}\u{2500}\u{2500}\u{2500}\u{2500}\u{2500}\u{2500}\u{2500}\u{2500}\u{2500}\u{2500}\u{2524}\n",
            );
            let ranked = self.categories_by_count();
            proof {
                broadcast use vstd::seq_lib::group_to_multiset_ensures;

                assert forall|j: int|
                    0 <= j < ranked@.len() implies ((#[trigger] ranked@[j]).1.supported_count
                    <= ranked@[j].1.count && ranked@[j].1.count < 0x1000_0000_0000) by {
                    assert(ranked@[j] == ranked@[j]);
                    assert(ranked@.contains(ranked@[j]));
                    assert(ranked@.to_multiset().count(ranked@[j]) > 0);
                    assert(self.categories@.to_multiset().count(ranked@[j]) > 0);
                    assert(self.categories@.contains(ranked@[j]));
                    let k = choose|k: int|
                        0 <= k < self.categories@.len() && #[trigger] self.categories@[k]
                            == ranked@[j];
                }
            }
            let mut i: usize = 0;
            while i < ranked.len()
                invariant
                    forall|j: int|
                        0 <= j < ranked@.len() ==> {
                            &&& (#[trigger] ranked@[j]).1.supported_count <= ranked@[j].1.count
                            &&& ranked@[j].1.count < 0x1000_0000_0000
                        },
                    i <= ranked@.len(),
                decreases ranked@.len() - i,
            {
                let entry = ranked[i];
                let row = Self::scan_row(entry.0, &entry.1);
                rest.append(row.as_str());
                i = i + 1;
            }
            rest.append(
                "\u{2514}\u{2500}\u{2500}\u{2500}\u{2500}\u{2500}\u{2500}\u{2500}\u{2500}\u{2500}\u{2500}\u{2500}\u{2500}\u{2500}\u{2500}\u{2500}\u{2500}\u{2500}\u{2500}\u{2500}\u{2500}\u{2500}\u{2534}\u{2500}\u{2500}\u{2500}\u{2500}\u{2500}\u{2500}\u{2500}\u{2500}\u{2500}\u{2534}\u{2500}\u{2500}\u{2500}\u{2500}\u{2500}\u{2500}\u{2500}\u{2500}\u{2500}\u{2500}\u{2534}\u{2500}\u{2500}\u{2500}\u{2500}\u{2500}\u{2500}\u{2500}\u{2500}\u{2500}\u{2500}\u{2500}\u{2500}\u{2500}\u{2534}\u{2500}\u{2500}\u{2500}\u{2500}\u{2500}\u{2500}\u{2500}\u{2500}\u{2500}\u{2500}\u{2500}\u{2500}\u{2500}\u{2500}\u{2500}\u{2518}\n",
            );
        }
        if self.total_supported > 0 {
            rest.append("\n\u{2728} File Fairy can help organize ");
            let c = usize_str(self.total_supported);
            rest.append(c.as_str());
            rest.append(" files (");
            let sz = format_file_size(self.total_supported_size);
            rest.append(sz.as_str());
            rest.append(")!\n");
        } else {
            rest.append("\n\u{1F614} No supported files found in this directory.\n");
        }
        s.append(rest.as_str());
        proof {
            assert(s@ == header + rest@);
            assert(s@.take(header.len() as int) =~= header);
        }
        s
    }
}

} // verus!
