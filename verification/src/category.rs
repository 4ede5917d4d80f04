//! File categories for organisation.

use vstd::prelude::*;

use crate::paths::{eq_str, ext_spec, file_name_of, file_name_spec, lower_ascii, lower_seq, split_name};

verus! {

/// The primary categories files are organised into.
#[derive(Debug, Clone, Copy, PartialEq, Eq, Hash, Structural)]
pub enum FileCategory {
    Documents,
    Data,
    Unsupported,
}

/// The category an extension (already lowered) falls into.
pub open spec fn category_of_ext(l: Seq<char>) -> FileCategory {
    if l == "txt"@ || l == "md"@ || l == "pdf"@ || l == "docx"@ || l == "pptx"@ || l == "hwp"@ {
        FileCategory::Documents
    } else if l == "xlsx"@ {
        FileCategory::Data
    } else {
        FileCategory::Unsupported
    }
}

/// The category of the file at `p`.
pub open spec fn category_spec(p: Seq<char>) -> FileCategory {
    match ext_spec(file_name_spec(p)) {
        Some(e) => category_of_ext(lower_seq(e)),
        None => FileCategory::Unsupported,
    }
}

impl FileCategory {
    /// Detects the category from a path's extension, case-insensitively.
    pub fn from_path(file_path: &str) -> (r: FileCategory)
        ensures
            r == category_spec(file_path@),
    {
        let name = file_name_of(file_path);
        let (_stem, ext) = split_name(name.as_str());
        match ext {
            Some(e) => {
                let l = lower_ascii(e.as_str());
                let ls = l.as_str();
                if eq_str(ls, "txt") || eq_str(ls, "md") || eq_str(ls, "pdf") || eq_str(ls, "docx")
                    || eq_str(ls, "pptx") || eq_str(ls, "hwp") {
                    FileCategory::Documents
                } else if eq_str(ls, "xlsx") {
                    FileCategory::Data
                } else {
                    FileCategory::Unsupported
                }
            },
            None => FileCategory::Unsupported,
        }
    }

    /// Whether files of this category can be read for their text.
    pub fn is_extractable(&self) -> (r: bool)
        ensures
            r == (self is Documents || self is Data),
    {
        match self {
            FileCategory::Documents => true,
            FileCategory::Data => true,
            FileCategory::Unsupported => false,
        }
    }

    /// A short description of the category.
    pub fn description(&self) -> (r: &'static str)
        ensures
            self is Documents ==> r@ == "Document files"@,
            self is Data ==> r@ == "Structured data files"@,
            self is Unsupported ==> r@ == "Unsupported files"@,
    {
        match self {
            FileCategory::Documents => "Document files",
            FileCategory::Data => "Structured data files",
            FileCategory::Unsupported => "Unsupported files",
        }
    }

    /// The category's lower-case name.
    pub fn as_str(&self) -> (r: &'static str)
        ensures
            self is Documents ==> r@ == "documents"@,
            self is Data ==> r@ == "data"@,
            self is Unsupported ==> r@ == "unsupported"@,
    {
        match self {
            FileCategory::Documents => "documents",
            FileCategory::Data => "data",
            FileCategory::Unsupported => "unsupported",
        }
    }
}

} // verus!
