//! Rendering of capability information for people.

use vstd::prelude::*;

use crate::fmt_util::{
    dec_spec, join_sep_spec, join_strs, pad_left, pad_left_spec, pad_right, pad_right_spec,
    truncate_display, truncate_display_spec, usize_str,
};
use crate::info::features::FeatureInfo;
use crate::info::formats::{CategoryInfo, SupportedFormats};
use crate::info::models::FileFairyInfo;
use crate::info::system::SystemInfo;
use crate::info::version::VersionInfo;
use crate::paths::{upper_ascii, upper_seq};

verus! {

/// The version section.
pub open spec fn version_section_spec(v: VersionInfo) -> Seq<char> {
    let base = "\u{1F4E6} VERSION INFO\n"@ + "Version: "@ + v.version@ + "\n"@ + "Build Date: "@
        + v.build_date@ + "\n"@;
    match v.git_hash {
        Some(h) => base + "Git Hash: "@ + h@ + "\n"@,
        None => base,
    }
}

/// One line of the features section.
pub open spec fn feature_line_spec(name: Seq<char>, on: bool) -> Seq<char> {
    name + ": "@ + (if on {
        "\u{2713} Enabled"@
    } else {
        "\u{2717} Disabled"@
    }) + "\n"@
}

/// The features section.
pub open spec fn features_section_spec(f: FeatureInfo) -> Seq<char> {
    "\n\u{26A1} FEATURES\n"@ + feature_line_spec("Text Extraction"@, f.text_extraction)
        + feature_line_spec("LLM Integration"@, f.llm_integration) + feature_line_spec(
        "Directory Scanning"@,
        f.directory_scanning,
    ) + feature_line_spec("Recursive Scanning"@, f.recursive_scanning) + feature_line_spec(
        "Symlink Support"@,
        f.symlink_support,
    ) + feature_line_spec("Async Processing"@, f.async_processing)
}

/// The system section.
pub open spec fn system_section_spec(s: SystemInfo) -> Seq<char> {
    "\n\u{1F4BB} SYSTEM INFO\n"@ + "Operating System: "@ + s.os@ + "\n"@ + "Architecture: "@
        + s.arch@ + "\n"@ + "CPU Cores: "@ + dec_spec(s.cpu_cores as int) + "\n"@
}

/// The usage examples section.
pub open spec fn usage_examples_spec() -> Seq<char> {
    "\n\u{1F4A1} USAGE EXAMPLES\n\u{2022} Scan current directory: file-fairy scan .\n\u{2022} Scan recursively: file-fairy scan . --recursive\n\u{2022} Generate filename: file-fairy suggest document.pdf\n\u{2022} Show supported formats: file-fairy info formats\n\u{2022} Show system info: file-fairy info system\n"@
}

/// One row of the formats table.
pub open spec fn formats_row_spec(name: Seq<char>, info: CategoryInfo) -> Seq<char> {
    let exts = join_sep_spec(info.extensions.deep_view(), ", "@);
    "\u{2502} "@ + pad_right_spec(name.take(if name.len() < 19 {
        name.len() as int
    } else {
        19
    }), 19) + " \u{2502} "@ + pad_left_spec(dec_spec(info.extensions@.len() as int), 7)
        + " \u{2502} "@ + pad_left_spec(if info.extractable {
        "\u{2713}"@
    } else {
        "\u{2717}"@
    }, 11) + " \u{2502} "@ + pad_right_spec(truncate_display_spec(exts, 17), 19) + " \u{2502}\n"@
}

/// The rows of the formats table, in category order.
pub open spec fn formats_rows_spec(cats: Seq<(String, CategoryInfo)>) -> Seq<char>
    decreases cats.len(),
{
    if cats.len() == 0 {
        Seq::empty()
    } else {
        formats_rows_spec(cats.drop_last()) + formats_row_spec(
            cats.last().0@,
            cats.last().1,
        )
    }
}

/// The formats section of the summary.
pub open spec fn formats_section_spec(f: SupportedFormats) -> Seq<char> {
    "\n\u{1F4C4} SUPPORTED FORMATS\n"@ + "Total Categories: "@ + dec_spec(
        f.categories@.len() as int,
    ) + "\n"@ + "Total Extensions: "@ + dec_spec(f.total_extensions as int) + "\n\n"@
        + "\u{250C}\u{2500}\u{2500}\u{2500}\u{2500}\u{2500}\u{2500}\u{2500}\u{2500}\u{2500}\u{2500}\u{2500}\u{2500}\u{2500}\u{2500}\u{2500}\u{2500}\u{2500}\u{2500}\u{2500}\u{2500}\u{2500}\u{252C}\u{2500}\u{2500}\u{2500}\u{2500}\u{2500}\u{2500}\u{2500}\u{2500}\u{2500}\u{252C}\u{2500}\u{2500}\u{2500}\u{2500}\u{2500}\u{2500}\u{2500}\u{2500}\u{2500}\u{2500}\u{2500}\u{2500}\u{2500}\u{252C}\u{2500}\u{2500}\u{2500}\u{2500}\u{2500}\u{2500}\u{2500}\u{2500}\u{2500}\u{2500}\u{2500}\u{2500}\u{2500}\u{2500}\u{2500}\u{2500}\u{2500}\u{2500}\u{2500}\u{2500}\u{2500}\u{2510}\n"@
        + "\u{2502} Category            \u{2502}  Count  \u{2502} Extractable \u{2502} Extensions          \u{2502}\n"@
        + "\u{251C}\u{2500}\u{2500}\u{2500}\u{2500}\u{2500}\u{2500}\u{2500}\u{2500}\u{2500}\u{2500}\u{2500}\u{2500}\u{2500}\u{2500}\u{2500}\u{2500}\u{2500}\u{2500}\u{2500}\u{2500}\u{2500}\u{253C}\u{2500}\u{2500}\u{2500}\u{2500}\u{2500}\u{2500}\u{2500}\u{2500}\u{2500}\u{253C}\u{2500}\u{2500}\u{2500}\u{2500}\u{2500}\u{2500}\u{2500}\u{2500}\u{2500}\u{2500}\u{2500}\u{2500}\u{2500}\u{253C}\u{2500}\u{2500}\u{2500}\u{2500}\u{2500}\u{2500}\u{2500}\u{2500}\u{2500}\u{2500}\u{2500}\u{2500}\u{2500}\u{2500}\u{2500}\u{2500}\u{2500}\u{2500}\u{2500}\u{2500}\u{2500}\u{2524}\n"@
        + formats_rows_spec(f.categories@)
        + "\u{2514}\u{2500}\u{2500}\u{2500}\u{2500}\u{2500}\u{2500}\u{2500}\u{2500}\u{2500}\u{2500}\u{2500}\u{2500}\u{2500}\u{2500}\u{2500}\u{2500}\u{2500}\u{2500}\u{2500}\u{2500}\u{2500}\u{2534}\u{2500}\u{2500}\u{2500}\u{2500}\u{2500}\u{2500}\u{2500}\u{2500}\u{2500}\u{2534}\u{2500}\u{2500}\u{2500}\u{2500}\u{2500}\u{2500}\u{2500}\u{2500}\u{2500}\u{2500}\u{2500}\u{2500}\u{2500}\u{2534}\u{2500}\u{2500}\u{2500}\u{2500}\u{2500}\u{2500}\u{2500}\u{2500}\u{2500}\u{2500}\u{2500}\u{2500}\u{2500}\u{2500}\u{2500}\u{2500}\u{2500}\u{2500}\u{2500}\u{2500}\u{2500}\u{2518}\n"@
}

/// One category block of the standalone formats listing.
pub open spec fn formats_block_spec(name: Seq<char>, info: CategoryInfo) -> Seq<char> {
    let base = "\u{1F3F7}\u{FE0F}  "@ + upper_seq(name) + "\n"@ + "Description: "@
        + info.description@ + "\n"@ + "Extractable: "@ + (if info.extractable {
        "\u{2713} Yes"@
    } else {
        "\u{2717} No"@
    }) + "\n"@ + "Extensions: "@ + join_sep_spec(info.extensions.deep_view(), ", "@) + "\n"@;
    match info.notes {
        Some(n) => base + "Notes: "@ + n@ + "\n"@ + "\n"@,
        None => base + "\n"@,
    }
}

/// The category blocks, in order.
pub open spec fn formats_blocks_spec(cats: Seq<(String, CategoryInfo)>) -> Seq<char>
    decreases cats.len(),
{
    if cats.len() == 0 {
        Seq::empty()
    } else {
        formats_blocks_spec(cats.drop_last()) + formats_block_spec(
            cats.last().0@,
            cats.last().1,
        )
    }
}

/// The standalone formats listing.
pub open spec fn formats_long_spec(f: SupportedFormats) -> Seq<char> {
    "\u{1F4C4} SUPPORTED FILE FORMATS\n\u{2550}\u{2550}\u{2550}\u{2550}\u{2550}\u{2550}\u{2550}\u{2550}\u{2550}\u{2550}\u{2550}\u{2550}\u{2550}\u{2550}\u{2550}\u{2550}\u{2550}\u{2550}\u{2550}\u{2550}\u{2550}\u{2550}\u{2550}\u{2550}\u{2550}\u{2550}\u{2550}\n\n"@
        + formats_blocks_spec(f.categories@) + "Total supported extensions: "@ + dec_spec(
        f.total_extensions as int,
    ) + "\n"@
}

/// The standalone system listing.
pub open spec fn system_long_spec(s: SystemInfo, v: VersionInfo) -> Seq<char> {
    let base =
        "\u{1F4BB} SYSTEM INFORMATION\n\u{2550}\u{2550}\u{2550}\u{2550}\u{2550}\u{2550}\u{2550}\u{2550}\u{2550}\u{2550}\u{2550}\u{2550}\u{2550}\u{2550}\u{2550}\u{2550}\u{2550}\u{2550}\u{2550}\u{2550}\u{2550}\u{2550}\u{2550}\n\n"@
        + "Operating System: "@ + s.os@ + "\n"@ + "Architecture: "@ + s.arch@ + "\n"@
        + "CPU Cores: "@ + dec_spec(s.cpu_cores as int) + "\n"@ + "File Fairy Version: "@
        + v.version@ + "\n"@ + "Build Date: "@ + v.build_date@ + "\n"@;
    match v.git_hash {
        Some(h) => base + "Git Commit: "@ + h@ + "\n"@,
        None => base,
    }
}

/// The whole capability summary.
pub open spec fn summary_spec(info: FileFairyInfo) -> Seq<char> {
    "\u{1F9DA} FILE FAIRY INFORMATION\n\u{2550}\u{2550}\u{2550}\u{2550}\u{2550}\u{2550}\u{2550}\u{2550}\u{2550}\u{2550}\u{2550}\u{2550}\u{2550}\u{2550}\u{2550}\u{2550}\u{2550}\u{2550}\u{2550}\u{2550}\u{2550}\u{2550}\u{2550}\u{2550}\u{2550}\u{2550}\u{2550}\n\n"@
        + version_section_spec(info.version) + formats_section_spec(info.supported_formats)
        + features_section_spec(info.features) + system_section_spec(info.system)
        + usage_examples_spec()
}

/// Renders capability information.
pub struct InfoFormatter;

impl InfoFormatter {
    /// The version section.
    pub fn format_version_section(v: &VersionInfo) -> (r: String)
        ensures
            r@ == version_section_spec(*v),
    {
        let mut s = "\u{1F4E6} VERSION INFO\n".to_owned();
        s.append("Version: ");
        s.append(v.version.as_str());
        s.append("\n");
        s.append("Build Date: ");
        s.append(v.build_date.as_str());
        s.append("\n");
        match &v.git_hash {
            Some(h) => {
                s.append("Git Hash: ");
                s.append(h.as_str());
                s.append("\n");
            },
            None => {},
        }
        s
    }

    /// One line of the features section.
    fn feature_line(name: &str, on: bool) -> (r: String)
        ensures
            r@ == feature_line_spec(name@, on),
    {
        let mut s = name.to_owned();
        s.append(": ");
        if on {
            s.append("\u{2713} Enabled");
        } else {
            s.append("\u{2717} Disabled");
        }
        s.append("\n");
        s
    }

    /// The features section.
    pub fn format_features_section(f: &FeatureInfo) -> (r: String)
        ensures
            r@ == features_section_spec(*f),
    {
        let mut s = "\n\u{26A1} FEATURES\n".to_owned();
        let l = Self::feature_line("Text Extraction", f.text_extraction);
        s.append(l.as_str());
        let l = Self::feature_line("LLM Integration", f.llm_integration);
        s.append(l.as_str());
        let l = Self::feature_line("Directory Scanning", f.directory_scanning);
        s.append(l.as_str());
        let l = Self::feature_line("Recursive Scanning", f.recursive_scanning);
        s.append(l.as_str());
        let l = Self::feature_line("Symlink Support", f.symlink_support);
        s.append(l.as_str());
        let l = Self::feature_line("Async Processing", f.async_processing);
        s.append(l.as_str());
        s
    }

    /// The system section of the summary.
    pub fn format_system_section(s: &SystemInfo) -> (r: String)
        ensures
            r@ == system_section_spec(*s),
    {
        let mut out = "\n\u{1F4BB} SYSTEM INFO\n".to_owned();
        out.append("Operating System: ");
        out.append(s.os.as_str());
        out.append("\n");
        out.append("Architecture: ");
        out.append(s.arch.as_str());
        out.append("\n");
        out.append("CPU Cores: ");
        let c = usize_str(s.cpu_cores);
        out.append(c.as_str());
        out.append("\n");
        out
    }

    /// The usage examples section.
    pub fn format_usage_examples() -> (r: String)
        ensures
            r@ == usage_examples_spec(),
    {
        "\n\u{1F4A1} USAGE EXAMPLES\n\u{2022} Scan current directory: file-fairy scan .\n\u{2022} Scan recursively: file-fairy scan . --recursive\n\u{2022} Generate filename: file-fairy suggest document.pdf\n\u{2022} Show supported formats: file-fairy info formats\n\u{2022} Show system info: file-fairy info system\n".to_owned()
    }

    /// One row of the formats table.
    fn formats_row(name: &str, info: &CategoryInfo) -> (r: String)
        ensures
            r@ == formats_row_spec(name@, *info),
    {
        let n = name.unicode_len();
        let cut = if n < 19 {
            n
        } else {
            19
        };
        let shown = name.substring_char(0, cut);
        let mut s = "\u{2502} ".to_owned();
        let p = pad_right(shown, 19);
        s.append(p.as_str());
        s.append(" \u{2502} ");
        let c = usize_str(info.extensions.len());
        let p = pad_left(c.as_str(), 7);
        s.append(p.as_str());
        s.append(" \u{2502} ");
        let mark = if info.extractable {
            "\u{2713}"
        } else {
            "\u{2717}"
        };
        let p = pad_left(mark, 11);
        s.append(p.as_str());
        s.append(" \u{2502} ");
        let exts = join_strs(&info.extensions, ", ");
        let t = truncate_display(exts.as_str(), 17);
        let p = pad_right(t.as_str(), 19);
        s.append(p.as_str());
        s.append(" \u{2502}\n");
        s
    }

    /// The formats section of the summary.
    pub fn format_formats_section(f: &SupportedFormats) -> (r: String)
        ensures
            r@ == formats_section_spec(*f),
    {
        let mut s = "\n\u{1F4C4} SUPPORTED FORMATS\n".to_owned();
        s.append("Total Categories: ");
        let c = usize_str(f.categories.len());
        s.append(c.as_str());
        s.append("\n");
        s.append("Total Extensions: ");
        let c = usize_str(f.total_extensions);
        s.append(c.as_str());
        s.append("\n\n");
        s.append(
            "\u{250C}\u{2500}\u{2500}\u{2500}\u{2500}\u{2500}\u{2500}\u{2500}\u{2500}\u{2500}\u{2500}\u{2500}\u{2500}\u{2500}\u{2500}\u{2500}\u{2500}\u{2500}\u{2500}\u{2500}\u{2500}\u{2500}\u{252C}\u{2500}\u{2500}\u{2500}\u{2500}\u{2500}\u{2500}\u{2500}\u{2500}\u{2500}\u{252C}\u{2500}\u{2500}\u{2500}\u{2500}\u{2500}\u{2500}\u{2500}\u{2500}\u{2500}\u{2500}\u{2500}\u{2500}\u{2500}\u{252C}\u{2500}\u{2500}\u{2500}\u{2500}\u{2500}\u{2500}\u{2500}\u{2500}\u{2500}\u{2500}\u{2500}\u{2500}\u{2500}\u{2500}\u{2500}\u{2500}\u{2500}\u{2500}\u{2500}\u{2500}\u{2500}\u{2510}\n",
        );
        s.append("\u{2502} Category            \u{2502}  Count  \u{2502} Extractable \u{2502} Extensions          \u{2502}\n");
        s.append(
            "\u{251C}\u{2500}\u{2500}\u{2500}\u{2500}\u{2500}\u{2500}\u{2500}\u{2500}\u{2500}\u{2500}\u{2500}\u{2500}\u{2500}\u{2500}\u{2500}\u{2500}\u{2500}\u{2500}\u{2500}\u{2500}\u{2500}\u{253C}\u{2500}\u{2500}\u{2500}\u{2500}\u{2500}\u{2500}\u{2500}\u{2500}\u{2500}\u{253C}\u{2500}\u{2500}\u{2500}\u{2500}\u{2500}\u{2500}\u{2500}\u{2500}\u{2500}\u{2500}\u{2500}\u{2500}\u{2500}\u{253C}\u{2500}\u{2500}\u{2500}\u{2500}\u{2500}\u{2500}\u{2500}\u{2500}\u{2500}\u{2500}\u{2500}\u{2500}\u{2500}\u{2500}\u{2500}\u{2500}\u{2500}\u{2500}\u{2500}\u{2500}\u{2500}\u{2524}\n",
        );
        let ghost header_so_far = s@;
        proof {
            assert(s@ =~= header_so_far + formats_rows_spec(f.categories@.take(0)));
        }
        let mut i: usize = 0;
        while i < f.categories.len()
            invariant
                i <= f.categories@.len(),
                s@ == header_so_far + formats_rows_spec(f.categories@.take(i as int)),
            decreases f.categories@.len() - i,
        {
            let row = Self::formats_row(f.categories[i].0.as_str(), &f.categories[i].1);
            s.append(row.as_str());
            i = i + 1;
            proof {
                assert(f.categories@.take(i as int).drop_last() =~= f.categories@.take(i - 1));
                assert(f.categories@.take(i as int).last() == f.categories@[i - 1]);
                assert(s@ =~= header_so_far + formats_rows_spec(f.categories@.take(i as int)));
            }
        }
        proof {
            assert(f.categories@.take(f.categories@.len() as int) =~= f.categories@);
        }
        s.append(
            "\u{2514}\u{2500}\u{2500}\u{2500}\u{2500}\u{2500}\u{2500}\u{2500}\u{2500}\u{2500}\u{2500}\u{2500}\u{2500}\u{2500}\u{2500}\u{2500}\u{2500}\u{2500}\u{2500}\u{2500}\u{2500}\u{2500}\u{2534}\u{2500}\u{2500}\u{2500}\u{2500}\u{2500}\u{2500}\u{2500}\u{2500}\u{2500}\u{2534}\u{2500}\u{2500}\u{2500}\u{2500}\u{2500}\u{2500}\u{2500}\u{2500}\u{2500}\u{2500}\u{2500}\u{2500}\u{2500}\u{2534}\u{2500}\u{2500}\u{2500}\u{2500}\u{2500}\u{2500}\u{2500}\u{2500}\u{2500}\u{2500}\u{2500}\u{2500}\u{2500}\u{2500}\u{2500}\u{2500}\u{2500}\u{2500}\u{2500}\u{2500}\u{2500}\u{2518}\n",
        );
        s
    }

    /// The whole capability summary.
    pub fn format_summary(info: &FileFairyInfo) -> (r: String)
        ensures
            r@ == summary_spec(*info),
    {
        let mut s =
            "\u{1F9DA} FILE FAIRY INFORMATION\n\u{2550}\u{2550}\u{2550}\u{2550}\u{2550}\u{2550}\u{2550}\u{2550}\u{2550}\u{2550}\u{2550}\u{2550}\u{2550}\u{2550}\u{2550}\u{2550}\u{2550}\u{2550}\u{2550}\u{2550}\u{2550}\u{2550}\u{2550}\u{2550}\u{2550}\u{2550}\u{2550}\n\n".to_owned();
        let part = Self::format_version_section(&info.version);
        s.append(part.as_str());
        let part = Self::format_formats_section(&info.supported_formats);
        s.append(part.as_str());
        let part = Self::format_features_section(&info.features);
        s.append(part.as_str());
        let part = Self::format_system_section(&info.system);
        s.append(part.as_str());
        let part = Self::format_usage_examples();
        s.append(part.as_str());
        s
    }

    /// One category block of the standalone formats listing.
    fn formats_block(name: &str, info: &CategoryInfo) -> (r: String)
        ensures
            r@ == formats_block_spec(name@, *info),
    {
        let mut s = "\u{1F3F7}\u{FE0F}  ".to_owned();
        let up = upper_ascii(name);
        s.append(up.as_str());
        s.append("\n");
        s.append("Description: ");
        s.append(info.description.as_str());
        s.append("\n");
        s.append("Extractable: ");
        if info.extractable {
            s.append("\u{2713} Yes");
        } else {
            s.append("\u{2717} No");
        }
        s.append("\n");
        s.append("Extensions: ");
        let exts = join_strs(&info.extensions, ", ");
        s.append(exts.as_str());
        s.append("\n");
        match &info.notes {
            Some(n) => {
                s.append("Notes: ");
                s.append(n.as_str());
                s.append("\n");
            },
            None => {},
        }
        s.append("\n");
        s
    }

    /// The standalone formats listing.
    pub fn format_formats(f: &SupportedFormats) -> (r: String)
        ensures
            r@ == formats_long_spec(*f),
    {
        let mut s =
            "\u{1F4C4} SUPPORTED FILE FORMATS\n\u{2550}\u{2550}\u{2550}\u{2550}\u{2550}\u{2550}\u{2550}\u{2550}\u{2550}\u{2550}\u{2550}\u{2550}\u{2550}\u{2550}\u{2550}\u{2550}\u{2550}\u{2550}\u{2550}\u{2550}\u{2550}\u{2550}\u{2550}\u{2550}\u{2550}\u{2550}\u{2550}\n\n".to_owned();
        let ghost head = s@;
        proof {
            assert(s@ =~= head + formats_blocks_spec(f.categories@.take(0)));
        }
        let mut i: usize = 0;
        while i < f.categories.len()
            invariant
                i <= f.categories@.len(),
                s@ == head + formats_blocks_spec(f.categories@.take(i as int)),
            decreases f.categories@.len() - i,
        {
            let block = Self::formats_block(f.categories[i].0.as_str(), &f.categories[i].1);
            s.append(block.as_str());
            i = i + 1;
            proof {
                assert(f.categories@.take(i as int).drop_last() =~= f.categories@.take(i - 1));
                assert(f.categories@.take(i as int).last() == f.categories@[i - 1]);
                assert(s@ =~= head + formats_blocks_spec(f.categories@.take(i as int)));
            }
        }
        proof {
            assert(f.categories@.take(f.categories@.len() as int) =~= f.categories@);
        }
        s.append("Total supported extensions: ");
        let c = usize_str(f.total_extensions);
        s.append(c.as_str());
        s.append("\n");
        s
    }

    /// The standalone system listing.
    pub fn format_system(sys: &SystemInfo, v: &VersionInfo) -> (r: String)
        ensures
            r@ == system_long_spec(*sys, *v),
    {
        let mut s =
            "\u{1F4BB} SYSTEM INFORMATION\n\u{2550}\u{2550}\u{2550}\u{2550}\u{2550}\u{2550}\u{2550}\u{2550}\u{2550}\u{2550}\u{2550}\u{2550}\u{2550}\u{2550}\u{2550}\u{2550}\u{2550}\u{2550}\u{2550}\u{2550}\u{2550}\u{2550}\u{2550}\n\n".to_owned();
        s.append("Operating System: ");
        s.append(sys.os.as_str());
        s.append("\n");
        s.append("Architecture: ");
        s.append(sys.arch.as_str());
        s.append("\n");
        s.append("CPU Cores: ");
        let c = usize_str(sys.cpu_cores);
        s.append(c.as_str());
        s.append("\n");
        s.append("File Fairy Version: ");
        s.append(v.version.as_str());
        s.append("\n");
        s.append("Build Date: ");
        s.append(v.build_date.as_str());
        s.append("\n");
        match &v.git_hash {
            Some(h) => {
                s.append("Git Commit: ");
                s.append(h.as_str());
                s.append("\n");
            },
            None => {},
        }
        s
    }
}

} // verus!
