//! File organisation: options, proposed actions, and the results ledger.

use vstd::prelude::*;

use crate::category::FileCategory;
use crate::fmt_util::{
    file_size_spec, format_file_size, pad_left, pad_left_spec, pad_right, pad_right_spec,
    truncate_display, truncate_display_spec, usize_str,
};
use crate::paths::{file_name_spec, file_name_of, join_path, join_spec, parent_of, parent_spec};
use crate::sys::now_unix_secs;

verus! {

/// Options for organising files.
#[derive(Debug, Clone)]
pub struct OrganizeOptions {
    /// Whether actions are executed (false previews only).
    pub apply: bool,
    /// Whether each action is confirmed interactively.
    pub interactive: bool,
    /// Whether subdirectories are scanned.
    pub recursive: bool,
    /// The deepest level entered; unlimited when absent.
    pub max_depth: Option<usize>,
    /// Where organised files go; in place when absent.
    pub target_dir: Option<String>,
    /// Whether symbolic links are followed.
    pub follow_symlinks: bool,
    /// Files larger than this many bytes are skipped; unlimited when absent.
    pub max_file_size: Option<u64>,
    /// The categories organised; all supported ones when absent.
    pub include_categories: Option<Vec<FileCategory>>,
}

impl Default for OrganizeOptions {
    /// A dry run over the whole tree: nothing is moved by default.
    fn default() -> (r: OrganizeOptions)
        ensures
            !r.apply,
            !r.interactive,
            r.recursive,
            r.max_depth is None,
            r.target_dir is None,
            !r.follow_symlinks,
            r.max_file_size is None,
            r.include_categories is None,
    {
        OrganizeOptions {
            apply: false,
            interactive: false,
            recursive: true,
            max_depth: None,
            target_dir: None,
            follow_symlinks: false,
            max_file_size: None,
            include_categories: None,
        }
    }
}

impl OrganizeOptions {
    /// Options with the safe defaults.
    pub fn new() -> (r: OrganizeOptions)
        ensures
            !r.apply,
            !r.interactive,
            r.recursive,
            r.max_depth is None,
            r.target_dir is None,
            !r.follow_symlinks,
            r.max_file_size is None,
            r.include_categories is None,
    {
        OrganizeOptions::default()
    }

    /// Sets whether changes are applied.
    pub fn with_apply(self, apply: bool) -> (r: OrganizeOptions)
        ensures
            r == (OrganizeOptions { apply, ..self }),
    {
        OrganizeOptions { apply, ..self }
    }

    /// Sets interactive confirmation.
    pub fn with_interactive(self, interactive: bool) -> (r: OrganizeOptions)
        ensures
            r == (OrganizeOptions { interactive, ..self }),
    {
        OrganizeOptions { interactive, ..self }
    }

    /// Sets whether subdirectories are scanned.
    pub fn with_recursive(self, recursive: bool) -> (r: OrganizeOptions)
        ensures
            r == (OrganizeOptions { recursive, ..self }),
    {
        OrganizeOptions { recursive, ..self }
    }

    /// Caps the depth.
    pub fn with_max_depth(self, depth: usize) -> (r: OrganizeOptions)
        ensures
            r == (OrganizeOptions { max_depth: Some(depth), ..self }),
    {
        OrganizeOptions { max_depth: Some(depth), ..self }
    }

    /// Sends organised files to one target directory.
    pub fn with_target_dir(self, target_dir: String) -> (r: OrganizeOptions)
        ensures
            r == (OrganizeOptions { target_dir: Some(target_dir), ..self }),
    {
        OrganizeOptions { target_dir: Some(target_dir), ..self }
    }

    /// Sets whether symbolic links are followed.
    pub fn with_follow_symlinks(self, follow: bool) -> (r: OrganizeOptions)
        ensures
            r == (OrganizeOptions { follow_symlinks: follow, ..self }),
    {
        OrganizeOptions { follow_symlinks: follow, ..self }
    }

    /// Caps the file size.
    pub fn with_max_file_size(self, size: u64) -> (r: OrganizeOptions)
        ensures
            r == (OrganizeOptions { max_file_size: Some(size), ..self }),
    {
        OrganizeOptions { max_file_size: Some(size), ..self }
    }

    /// Restricts organisation to the given categories.
    pub fn with_categories(self, categories: Vec<FileCategory>) -> (r: OrganizeOptions)
        ensures
            r == (OrganizeOptions { include_categories: Some(categories), ..self }),
    {
        OrganizeOptions { include_categories: Some(categories), ..self }
    }

    /// Whether files of `category` are organised under these options.
    pub fn should_include_category(&self, category: &FileCategory) -> (r: bool)
        ensures
            r == (self.include_categories is None || self.include_categories->0@.contains(
                *category,
            )),
    {
        match &self.include_categories {
            Some(cats) => {
                let mut i: usize = 0;
                while i < cats.len()
                    invariant
                        cats@ == self.include_categories->0@,
                        i <= cats@.len(),
                        forall|j: int| 0 <= j < i ==> #[trigger] cats@[j] != *category,
                    decreases cats@.len() - i,
                {
                    if cats[i] == *category {
                        proof {
                            assert(cats@.contains(*category));
                        }
                        return true;
                    }
                    i = i + 1;
                }
                proof {
                    assert(!cats@.contains(*category));
                }
                false
            },
            None => true,
        }
    }

    /// Whether a file of `size` bytes is organised under these options.
    pub fn should_process_file_size(&self, size: u64) -> (r: bool)
        ensures
            r == match self.max_file_size {
                Some(m) => size <= m,
                None => true,
            },
    {
        match self.max_file_size {
            Some(m) => size <= m,
            None => true,
        }
    }
}

/// What `describe_action` says of an action.
pub open spec fn describe_spec(a: OrganizeAction) -> Seq<char> {
    let moves = parent_spec(a.source@) != parent_spec(a.destination@);
    let renames = file_name_spec(a.source@) != file_name_spec(a.destination@);
    if moves && renames {
        "Move and rename: "@ + a.source@ + " -> "@ + a.destination@
    } else if moves {
        "Move: "@ + a.source@ + " -> "@ + parent_str(a.destination@)
    } else if renames {
        "Rename: "@ + a.original_filename@ + " -> "@ + a.suggested_filename@
    } else {
        "No changes"@
    }
}

/// The parent rendered as text: empty when there is none.
pub open spec fn parent_str(p: Seq<char>) -> Seq<char> {
    match parent_spec(p) {
        Some(d) => d,
        None => Seq::empty(),
    }
}

/// One proposed organisation action.
#[derive(Debug, Clone)]
pub struct OrganizeAction {
    /// The file as it is now.
    pub source: String,
    /// Where it would go.
    pub destination: String,
    /// The file's current name.
    pub original_filename: String,
    /// The proposed name.
    pub suggested_filename: String,
    /// The file's category.
    pub category: FileCategory,
    /// The file's size in bytes.
    pub size: u64,
    /// Whether the user approved the action.
    pub approved: bool,
}

impl OrganizeAction {
    /// A new, not yet approved action.
    pub fn new(
        source: String,
        destination: String,
        original_filename: String,
        suggested_filename: String,
        category: FileCategory,
        size: u64,
    ) -> (r: OrganizeAction)
        ensures
            r.source == source,
            r.destination == destination,
            r.original_filename == original_filename,
            r.suggested_filename == suggested_filename,
            r.category == category,
            r.size == size,
            !r.approved,
    {
        OrganizeAction {
            source,
            destination,
            original_filename,
            suggested_filename,
            category,
            size,
            approved: false,
        }
    }

    /// Approves the action.
    pub fn approve(&mut self)
        ensures
            *final(self) == (OrganizeAction { approved: true, ..*old(self) }),
    {
        self.approved = true;
    }

    /// Whether the action moves the file to another directory.
    pub fn changes_directory(&self) -> (r: bool)
        ensures
            r == (parent_spec(self.source@) != parent_spec(self.destination@)),
    {
        let a = parent_of(self.source.as_str());
        let b = parent_of(self.destination.as_str());
        match (a, b) {
            (Some(x), Some(y)) => !crate::paths::eq_str(x.as_str(), y.as_str()),
            (None, None) => false,
            _ => true,
        }
    }

    /// Whether the action renames the file.
    pub fn changes_filename(&self) -> (r: bool)
        ensures
            r == (file_name_spec(self.source@) != file_name_spec(self.destination@)),
    {
        let a = file_name_of(self.source.as_str());
        let b = file_name_of(self.destination.as_str());
        !crate::paths::eq_str(a.as_str(), b.as_str())
    }

    /// Says what the action will do.
    pub fn describe_action(&self) -> (r: String)
        ensures
            r@ == describe_spec(*self),
    {
        let moves = self.changes_directory();
        let renames = self.changes_filename();
        if moves && renames {
            let mut s = "Move and rename: ".to_owned();
            s.append(self.source.as_str());
            s.append(" -> ");
            s.append(self.destination.as_str());
            s
        } else if moves {
            let mut s = "Move: ".to_owned();
            s.append(self.source.as_str());
            s.append(" -> ");
            match parent_of(self.destination.as_str()) {
                Some(d) => {
                    s.append(d.as_str());
                },
                None => {},
            }
            proof {
                assert(s@ =~= "Move: "@ + self.source@ + " -> "@ + parent_str(
                    self.destination@,
                ));
            }
            s
        } else if renames {
            let mut s = "Rename: ".to_owned();
            s.append(self.original_filename.as_str());
            s.append(" -> ");
            s.append(self.suggested_filename.as_str());
            s
        } else {
            "No changes".to_owned()
        }
    }

    /// Replaces the suggested name; the destination follows it, staying in
    /// the source's directory.
    pub fn update_suggested_filename(&mut self, new_filename: String)
        ensures
            final(self).suggested_filename == new_filename,
            final(self).source == old(self).source,
            final(self).original_filename == old(self).original_filename,
            final(self).category == old(self).category,
            final(self).size == old(self).size,
            final(self).approved == old(self).approved,
            match parent_spec(old(self).source@) {
                Some(d) => final(self).destination@ == join_spec(d, new_filename@),
                None => final(self).destination == old(self).destination,
            },
    {
        match parent_of(self.source.as_str()) {
            Some(d) => {
                self.destination = join_path(d.as_str(), new_filename.as_str());
            },
            None => {},
        }
        self.suggested_filename = new_filename;
    }
}

/// How many actions in `s` are approved.
pub open spec fn count_approved(s: Seq<OrganizeAction>) -> int
    decreases s.len(),
{
    if s.len() == 0 {
        0
    } else {
        count_approved(s.drop_last()) + if s.last().approved {
            1int
        } else {
            0int
        }
    }
}

/// The ledger of one organisation run.
#[derive(Debug, Clone)]
pub struct OrganizeResults {
    /// The organised root.
    pub organized_path: String,
    /// Every proposed action.
    pub actions: Vec<OrganizeAction>,
    /// How many actions succeeded.
    pub successful_actions: usize,
    /// How many actions failed.
    pub failed_actions: usize,
    /// How many actions were skipped.
    pub skipped_actions: usize,
    /// The failures' messages.
    pub errors: Vec<String>,
    /// Seconds since the epoch when the run happened.
    pub timestamp: u64,
    /// Whether this run was a preview.
    pub dry_run: bool,
}

impl OrganizeResults {
    /// An empty ledger for a root, stamped with the current time.
    pub fn new(path: String, dry_run: bool) -> (r: OrganizeResults)
        ensures
            r.organized_path == path,
            r.actions@ == Seq::<OrganizeAction>::empty(),
            r.successful_actions == 0,
            r.failed_actions == 0,
            r.skipped_actions == 0,
            r.errors@ == Seq::<String>::empty(),
            r.dry_run == dry_run,
    {
        OrganizeResults {
            organized_path: path,
            actions: Vec::new(),
            successful_actions: 0,
            failed_actions: 0,
            skipped_actions: 0,
            errors: Vec::new(),
            timestamp: now_unix_secs(),
            dry_run,
        }
    }

    /// Records a proposed action.
    pub fn add_action(&mut self, action: OrganizeAction)
        ensures
            final(self).actions@ == old(self).actions@.push(action),
            final(self).successful_actions == old(self).successful_actions,
            final(self).failed_actions == old(self).failed_actions,
            final(self).skipped_actions == old(self).skipped_actions,
            final(self).errors == old(self).errors,
            final(self).organized_path == old(self).organized_path,
            final(self).dry_run == old(self).dry_run,
            final(self).timestamp == old(self).timestamp,
    {
        self.actions.push(action);
    }

    /// Records one success.
    pub fn record_success(&mut self)
        requires
            old(self).successful_actions < usize::MAX,
        ensures
            *final(self) == (OrganizeResults {
                successful_actions: (old(self).successful_actions + 1) as usize,
                ..*old(self)
            }),
    {
        self.successful_actions = self.successful_actions + 1;
    }

    /// Records one failure with its message.
    pub fn record_failure(&mut self, error: String)
        requires
            old(self).failed_actions < usize::MAX,
        ensures
            final(self).failed_actions == old(self).failed_actions + 1,
            final(self).errors@ == old(self).errors@.push(error),
            final(self).successful_actions == old(self).successful_actions,
            final(self).skipped_actions == old(self).skipped_actions,
            final(self).actions == old(self).actions,
            final(self).organized_path == old(self).organized_path,
            final(self).dry_run == old(self).dry_run,
            final(self).timestamp == old(self).timestamp,
    {
        self.failed_actions = self.failed_actions + 1;
        self.errors.push(error);
    }

    /// Records one skipped action.
    pub fn record_skip(&mut self)
        requires
            old(self).skipped_actions < usize::MAX,
        ensures
            *final(self) == (OrganizeResults {
                skipped_actions: (old(self).skipped_actions + 1) as usize,
                ..*old(self)
            }),
    {
        self.skipped_actions = self.skipped_actions + 1;
    }

    /// How many actions the ledger holds.
    pub fn total_actions(&self) -> (r: usize)
        ensures
            r == self.actions@.len(),
    {
        self.actions.len()
    }

    /// How many of them are approved.
    pub fn approved_actions(&self) -> (r: usize)
        ensures
            r == count_approved(self.actions@),
    {
        let mut n: usize = 0;
        let mut i: usize = 0;
        proof {
            assert(self.actions@.take(0) =~= Seq::<OrganizeAction>::empty());
        }
        while i < self.actions.len()
            invariant
                i <= self.actions@.len(),
                n == count_approved(self.actions@.take(i as int)),
                n <= i,
            decreases self.actions@.len() - i,
        {
            proof {
                assert(self.actions@.take(i + 1).drop_last() =~= self.actions@.take(i as int));
            }
            if self.actions[i].approved {
                n = n + 1;
            }
            i = i + 1;
        }
        proof {
            assert(self.actions@.take(self.actions@.len() as int) =~= self.actions@);
        }
        n
    }
}


/// Where an organised file goes: into the target directory when one is
/// set, else beside its source; the current directory stands in for a
/// source with no parent.
pub open spec fn destination_spec(
    source: Seq<char>,
    target_dir: Option<Seq<char>>,
    name: Seq<char>,
) -> Seq<char> {
    match target_dir {
        Some(d) => join_spec(d, name),
        None => match parent_spec(source) {
            Some(d) => join_spec(d, name),
            None => join_spec("."@, name),
        },
    }
}

/// Computes the destination path for a suggested name.
pub fn destination_for(source: &str, target_dir: &Option<String>, name: &str) -> (r: String)
    ensures
        r@ == destination_spec(
            source@,
            match target_dir {
                Some(d) => Some(d@),
                None => None,
            },
            name@,
        ),
{
    match target_dir {
        Some(d) => join_path(d.as_str(), name),
        None => {
            match parent_of(source) {
                Some(d) => join_path(d.as_str(), name),
                None => join_path(".", name),
            }
        },
    }
}

/// The preview's header.
pub open spec fn preview_header_spec(dry_run: bool) -> Seq<char> {
    (if dry_run {
        "\u{1F50D} ORGANIZATION PREVIEW (DRY RUN)\n"@
    } else {
        "\u{2728} ORGANIZATION RESULTS\n"@
    })
        + "\u{2550}\u{2550}\u{2550}\u{2550}\u{2550}\u{2550}\u{2550}\u{2550}\u{2550}\u{2550}\u{2550}\u{2550}\u{2550}\u{2550}\u{2550}\u{2550}\u{2550}\u{2550}\u{2550}\u{2550}\u{2550}\u{2550}\u{2550}\u{2550}\u{2550}\u{2550}\u{2550}\u{2550}\u{2550}\u{2550}\u{2550}\u{2550}\u{2550}\u{2550}\u{2550}\n\n"@
}

/// One row of the actions table.
pub open spec fn action_row_spec(a: OrganizeAction, dry_run: bool) -> Seq<char> {
    let status: Seq<char> = if !dry_run || a.approved {
        "\u{2713}"@
    } else {
        " "@
    };
    "\u{2502}"@ + pad_left_spec(status, 2) + "\u{2502} "@ + pad_right_spec(
        truncate_display_spec(a.original_filename@, 27),
        27,
    ) + " \u{2502} "@ + pad_left_spec(file_size_spec(a.size as int), 8) + " \u{2502} "@
        + pad_right_spec(truncate_display_spec(a.suggested_filename@, 27), 27) + " \u{2502} "@
        + pad_left_spec(category_name_spec(a.category), 8) + " \u{2502}\n"@
}

/// A category's lower-case name, for the table.
pub open spec fn category_name_spec(c: FileCategory) -> Seq<char> {
    match c {
        FileCategory::Documents => "documents"@,
        FileCategory::Data => "data"@,
        FileCategory::Unsupported => "unsupported"@,
    }
}

impl OrganizeResults {
    /// Renders the run for people: header, summary, the actions table,
    /// next steps for a preview, and the failures.
    pub fn format_preview(&self) -> (r: String)
        ensures
            r@.len() >= preview_header_spec(self.dry_run).len(),
            r@.take(preview_header_spec(self.dry_run).len() as int) == preview_header_spec(
                self.dry_run,
            ),
    {
        let mut s = if self.dry_run {
            "\u{1F50D} ORGANIZATION PREVIEW (DRY RUN)\n".to_owned()
        } else {
            "\u{2728} ORGANIZATION RESULTS\n".to_owned()
        };
        s.append(
            "\u{2550}\u{2550}\u{2550}\u{2550}\u{2550}\u{2550}\u{2550}\u{2550}\u{2550}\u{2550}\u{2550}\u{2550}\u{2550}\u{2550}\u{2550}\u{2550}\u{2550}\u{2550}\u{2550}\u{2550}\u{2550}\u{2550}\u{2550}\u{2550}\u{2550}\u{2550}\u{2550}\u{2550}\u{2550}\u{2550}\u{2550}\u{2550}\u{2550}\u{2550}\u{2550}\n\n",
        );
        let ghost header = s@;
        proof {
            assert(header == preview_header_spec(self.dry_run));
        }
        let mut rest = String::new();
        rest.append("\u{1F4C1} Path: ");
        rest.append(self.organized_path.as_str());
        rest.append("\n");
        rest.append("\u{1F552} Time: ");
        #[verifier::truncate]
        let ts = self.timestamp as i64;
        if ts >= 0 {
            let t = crate::sys::format_utc(ts);
            rest.append(t.as_str());
        }
        rest.append(" UTC\n");
        rest.append("\u{1F4CA} Total Files: ");
        let c = usize_str(self.total_actions());
        rest.append(c.as_str());
        rest.append("\n");
        if self.dry_run {
            rest.append("\u{2705} Approved: ");
            let c = usize_str(self.approved_actions());
            rest.append(c.as_str());
            rest.append("\n");
        } else {
            rest.append("\u{2705} Successful: ");
            let c = usize_str(self.successful_actions);
            rest.append(c.as_str());
            rest.append("\n\u{274C} Failed: ");
            let c = usize_str(self.failed_actions);
            rest.append(c.as_str());
            rest.append("\n\u{23ED}\u{FE0F}  Skipped: ");
            let c = usize_str(self.skipped_actions);
            rest.append(c.as_str());
            rest.append("\n");
        }
        if self.actions.len() > 0 {
            rest.append("\n\u{1F4CB} ACTIONS\n");
            rest.append(
                "\u{250C}\u{2500}\u{2500}\u{252C}\u{2500}\u{2500}\u{2500}\u{2500}\u{2500}\u{2500}\u{2500}\u{2500}\u{2500}\u{2500}\u{2500}\u{2500}\u{2500}\u{2500}\u{2500}\u{2500}\u{2500}\u{2500}\u{2500}\u{2500}\u{2500}\u{2500}\u{2500}\u{2500}\u{2500}\u{2500}\u{2500}\u{2500}\u{2500}\u{252C}\u{2500}\u{2500}\u{2500}\u{2500}\u{2500}\u{2500}\u{2500}\u{2500}\u{2500}\u{2500}\u{252C}\u{2500}\u{2500}\u{2500}\u{2500}\u{2500}\u{2500}\u{2500}\u{2500}\u{2500}\u{2500}\u{2500}\u{2500}\u{2500}\u{2500}\u{2500}\u{2500}\u{2500}\u{2500}\u{2500}\u{2500}\u{2500}\u{2500}\u{2500}\u{2500}\u{2500}\u{2500}\u{2500}\u{2500}\u{2500}\u{252C}\u{2500}\u{2500}\u{2500}\u{2500}\u{2500}\u{2500}\u{2500}\u{2500}\u{2500}\u{2500}\u{2510}\n",
            );
            rest.append("\u{2502}  \u{2502} Original                    \u{2502}   Size   \u{2502} Suggested                   \u{2502} Category \u{2502}\n");
            rest.append(
                "\u{251C}\u{2500}\u{2500}\u{253C}\u{2500}\u{2500}\u{2500}\u{2500}\u{2500}\u{2500}\u{2500}\u{2500}\u{2500}\u{2500}\u{2500}\u{2500}\u{2500}\u{2500}\u{2500}\u{2500}\u{2500}\u{2500}\u{2500}\u{2500}\u{2500}\u{2500}\u{2500}\u{2500}\u{2500}\u{2500}\u{2500}\u{2500}\u{2500}\u{253C}\u{2500}\u{2500}\u{2500}\u{2500}\u{2500}\u{2500}\u{2500}\u{2500}\u{2500}\u{2500}\u{253C}\u{2500}\u{2500}\u{2500}\u{2500}\u{2500}\u{2500}\u{2500}\u{2500}\u{2500}\u{2500}\u{2500}\u{2500}\u{2500}\u{2500}\u{2500}\u{2500}\u{2500}\u{2500}\u{2500}\u{2500}\u{2500}\u{2500}\u{2500}\u{2500}\u{2500}\u{2500}\u{2500}\u{2500}\u{2500}\u{253C}\u{2500}\u{2500}\u{2500}\u{2500}\u{2500}\u{2500}\u{2500}\u{2500}\u{2500}\u{2500}\u{2524}\n",
            );
            let mut i: usize = 0;
            while i < self.actions.len()
                invariant
                    i <= self.actions@.len(),
                decreases self.actions@.len() - i,
            {
                let a = &self.actions[i];
                let row = Self::action_row(a, self.dry_run);
                rest.append(row.as_str());
                i = i + 1;
            }
            rest.append(
                "\u{2514}\u{2500}\u{2500}\u{2534}\u{2500}\u{2500}\u{2500}\u{2500}\u{2500}\u{2500}\u{2500}\u{2500}\u{2500}\u{2500}\u{2500}\u{2500}\u{2500}\u{2500}\u{2500}\u{2500}\u{2500}\u{2500}\u{2500}\u{2500}\u{2500}\u{2500}\u{2500}\u{2500}\u{2500}\u{2500}\u{2500}\u{2500}\u{2500}\u{2534}\u{2500}\u{2500}\u{2500}\u{2500}\u{2500}\u{2500}\u{2500}\u{2500}\u{2500}\u{2500}\u{2534}\u{2500}\u{2500}\u{2500}\u{2500}\u{2500}\u{2500}\u{2500}\u{2500}\u{2500}\u{2500}\u{2500}\u{2500}\u{2500}\u{2500}\u{2500}\u{2500}\u{2500}\u{2500}\u{2500}\u{2500}\u{2500}\u{2500}\u{2500}\u{2500}\u{2500}\u{2500}\u{2500}\u{2500}\u{2500}\u{2534}\u{2500}\u{2500}\u{2500}\u{2500}\u{2500}\u{2500}\u{2500}\u{2500}\u{2500}\u{2500}\u{2518}\n",
            );
        }
        if self.dry_run && self.actions.len() > 0 {
            rest.append("\n\u{1F4A1} NEXT STEPS\n");
            rest.append("\u{2022} Review the suggested changes above\n");
            rest.append("\u{2022} Run with --apply to execute the approved actions\n");
            rest.append("\u{2022} Use --interactive for step-by-step control\n");
        }
        if self.errors.len() > 0 {
            rest.append("\n\u{274C} ERRORS\n");
            let mut i: usize = 0;
            while i < self.errors.len()
                invariant
                    i <= self.errors@.len(),
                decreases self.errors@.len() - i,
            {
                rest.append("\u{2022} ");
                rest.append(self.errors[i].as_str());
                rest.append("\n");
                i = i + 1;
            }
        }
        s.append(rest.as_str());
        proof {
            assert(s@ == header + rest@);
            assert(s@.take(header.len() as int) =~= header);
        }
        s
    }

    /// One row of the actions table.
    fn action_row(a: &OrganizeAction, dry_run: bool) -> (r: String)
        ensures
            r@ == action_row_spec(*a, dry_run),
    {
        let status = if !dry_run || a.approved {
            "\u{2713}"
        } else {
            " "
        };
        let mut s = "\u{2502}".to_owned();
        let p = pad_left(status, 2);
        s.append(p.as_str());
        s.append("\u{2502} ");
        let t = truncate_display(a.original_filename.as_str(), 27);
        let p = pad_right(t.as_str(), 27);
        s.append(p.as_str());
        s.append(" \u{2502} ");
        let sz = format_file_size(a.size);
        let p = pad_left(sz.as_str(), 8);
        s.append(p.as_str());
        s.append(" \u{2502} ");
        let t = truncate_display(a.suggested_filename.as_str(), 27);
        let p = pad_right(t.as_str(), 27);
        s.append(p.as_str());
        s.append(" \u{2502} ");
        let name = match a.category {
            FileCategory::Documents => "documents",
            FileCategory::Data => "data",
            FileCategory::Unsupported => "unsupported",
        };
        let p = pad_left(name, 8);
        s.append(p.as_str());
        s.append(" \u{2502}\n");
        s
    }
}

} // verus!
