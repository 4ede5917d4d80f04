//! The supported file formats, by category.

use vstd::prelude::*;

use crate::paths::{eq_str, lower_ascii, lower_seq};

verus! {

/// One category of file formats.
#[derive(Debug, Clone)]
pub struct CategoryInfo {
    /// What the category holds.
    pub description: String,
    /// The category's extensions.
    pub extensions: Vec<String>,
    /// Whether the extractors can read these files.
    pub extractable: bool,
    /// An optional remark.
    pub notes: Option<String>,
}

/// The supported extensions, sorted: the union of the extractable
/// categories.
pub open spec fn supported_extension_list() -> Seq<Seq<char>> {
    seq!["docx"@, "hwp"@, "md"@, "pdf"@, "pptx"@, "txt"@, "xlsx"@]
}

/// All supported file formats.
#[derive(Debug, Clone)]
pub struct SupportedFormats {
    /// Category name to its formats, in a fixed order.
    pub categories: Vec<(String, CategoryInfo)>,
    /// How many distinct extensions are supported.
    pub total_extensions: usize,
    /// The supported extensions, sorted.
    pub extensions: Vec<String>,
}

impl SupportedFormats {
    /// The format catalogue: documents, data, and the unknown rest.
    pub fn new() -> (r: SupportedFormats)
        ensures
            r.categories@.len() == 3,
            r.categories@[0].0@ == "Documents"@,
            r.categories@[0].1.extractable,
            r.categories@[0].1.extensions.deep_view() == seq![
                "txt"@,
                "md"@,
                "pdf"@,
                "docx"@,
                "pptx"@,
                "hwp"@,
            ],
            r.categories@[1].0@ == "Data"@,
            r.categories@[1].1.extractable,
            r.categories@[1].1.extensions.deep_view() == seq!["xlsx"@],
            r.categories@[2].0@ == "Unknown"@,
            !r.categories@[2].1.extractable,
            r.extensions.deep_view() == supported_extension_list(),
            r.total_extensions == supported_extension_list().len(),
    {
        let mut doc_exts: Vec<String> = Vec::new();
        doc_exts.push("txt".to_owned());
        doc_exts.push("md".to_owned());
        doc_exts.push("pdf".to_owned());
        doc_exts.push("docx".to_owned());
        doc_exts.push("pptx".to_owned());
        doc_exts.push("hwp".to_owned());
        proof {
            assert(doc_exts.deep_view() =~= seq!["txt"@, "md"@, "pdf"@, "docx"@, "pptx"@, "hwp"@]);
        }
        let documents = CategoryInfo {
            description: "Text documents and presentations".to_owned(),
            extensions: doc_exts,
            extractable: true,
            notes: Some("Supports text extraction for AI analysis".to_owned()),
        };
        let mut data_exts: Vec<String> = Vec::new();
        data_exts.push("xlsx".to_owned());
        proof {
            assert(data_exts.deep_view() =~= seq!["xlsx"@]);
        }
        let data = CategoryInfo {
            description: "Structured data files".to_owned(),
            extensions: data_exts,
            extractable: true,
            notes: Some("Spreadsheet data can be extracted as text".to_owned()),
        };
        let mut unknown_exts: Vec<String> = Vec::new();
        unknown_exts.push("*".to_owned());
        let unknown = CategoryInfo {
            description: "Unknown or unsupported file types".to_owned(),
            extensions: unknown_exts,
            extractable: false,
            notes: Some("Files not matching any known category".to_owned()),
        };
        let mut categories: Vec<(String, CategoryInfo)> = Vec::new();
        categories.push(("Documents".to_owned(), documents));
        categories.push(("Data".to_owned(), data));
        categories.push(("Unknown".to_owned(), unknown));
        let mut all: Vec<String> = Vec::new();
        all.push("docx".to_owned());
        all.push("hwp".to_owned());
        all.push("md".to_owned());
        all.push("pdf".to_owned());
        all.push("pptx".to_owned());
        all.push("txt".to_owned());
        all.push("xlsx".to_owned());
        proof {
            assert(all.deep_view() =~= supported_extension_list());
        }
        let total = all.len();
        SupportedFormats { categories, total_extensions: total, extensions: all }
    }

    /// Whether some category is named `name`.
    pub fn has_category(&self, name: &str) -> (r: bool)
        ensures
            r == exists|i: int|
                0 <= i < self.categories@.len() && (#[trigger] self.categories@[i]).0@ == name@,
    {
        let mut i: usize = 0;
        while i < self.categories.len()
            invariant
                i <= self.categories@.len(),
                forall|j: int| 0 <= j < i ==> (#[trigger] self.categories@[j]).0@ != name@,
            decreases self.categories@.len() - i,
        {
            if eq_str(self.categories[i].0.as_str(), name) {
                proof {
                    assert((self.categories@[i as int]).0@ == name@);
                }
                return true;
            }
            i = i + 1;
        }
        false
    }

    /// The formats of the category named `name`, if any.
    pub fn get_category(&self, name: &str) -> (r: Option<&CategoryInfo>)
        ensures
            r is Some <==> exists|i: int|
                0 <= i < self.categories@.len() && (#[trigger] self.categories@[i]).0@ == name@,
            r matches Some(info) ==> exists|i: int|
                0 <= i < self.categories@.len() && (#[trigger] self.categories@[i]).0@ == name@
                    && *info == self.categories@[i].1,
    {
        let mut i: usize = 0;
        while i < self.categories.len()
            invariant
                i <= self.categories@.len(),
                forall|j: int| 0 <= j < i ==> (#[trigger] self.categories@[j]).0@ != name@,
            decreases self.categories@.len() - i,
        {
            if eq_str(self.categories[i].0.as_str(), name) {
                proof {
                    assert((self.categories@[i as int]).0@ == name@);
                }
                return Some(&self.categories[i].1);
            }
            i = i + 1;
        }
        None
    }

    /// Whether an extension is supported, case-insensitively.
    pub fn is_extension_supported(&self, extension: &str) -> (r: bool)
        ensures
            r == self.extensions.deep_view().contains(lower_seq(extension@)),
    {
        let low = lower_ascii(extension);
        let mut i: usize = 0;
        while i < self.extensions.len()
            invariant
                low@ == lower_seq(extension@),
                i <= self.extensions@.len(),
                forall|j: int|
                    0 <= j < i ==> #[trigger] self.extensions.deep_view()[j] != lower_seq(
                        extension@,
                    ),
            decreases self.extensions@.len() - i,
        {
            let hit = eq_str(self.extensions[i].as_str(), low.as_str());
            proof {
                assert(self.extensions.deep_view()[i as int] == self.extensions@[i as int]@);
            }
            if hit {
                proof {
                    assert(self.extensions.deep_view()[i as int] == lower_seq(extension@));
                }
                return true;
            }
            i = i + 1;
        }
        proof {
            if self.extensions.deep_view().contains(lower_seq(extension@)) {
                let j = choose|j: int|
                    0 <= j < self.extensions.deep_view().len()
                        && #[trigger] self.extensions.deep_view()[j] == lower_seq(extension@);
            }
        }
        false
    }
}

impl Default for SupportedFormats {
    /// The format catalogue.
    fn default() -> (r: SupportedFormats)
        ensures
            r.extensions.deep_view() == supported_extension_list(),
            r.total_extensions == supported_extension_list().len(),
    {
        SupportedFormats::new()
    }
}

} // verus!
