//! The extractor registry.
//!
//! Each supported format has an extractor type; the registry decides which
//! one, if any, handles a path.  The extraction itself reads files and
//! parses their formats at the caller's edge.

use vstd::prelude::*;

use crate::paths::{eq_str, ext_spec, file_name_of, file_name_spec, lower_ascii, lower_seq, split_name};

verus! {

/// Reads plain text files (`txt`, `md`, `rst`, `log`).
#[derive(Debug, Clone, Copy)]
pub struct TextExtractor;

/// Reads PDF documents.
#[derive(Debug, Clone, Copy)]
pub struct PdfExtractor;

/// Reads HWP documents.
#[derive(Debug, Clone, Copy)]
pub struct HwpExtractor;

/// Reads Word documents.
#[derive(Debug, Clone, Copy)]
pub struct DocxExtractor;

/// Reads Excel workbooks.
#[derive(Debug, Clone, Copy)]
pub struct XlsxExtractor;

/// Reads PowerPoint presentations.
#[derive(Debug, Clone, Copy)]
pub struct PptxExtractor;

impl TextExtractor {
    /// A plain-text extractor.
    pub fn new() -> TextExtractor {
        TextExtractor
    }
}

impl PdfExtractor {
    /// A PDF extractor.
    pub fn new() -> PdfExtractor {
        PdfExtractor
    }
}

impl HwpExtractor {
    /// An HWP extractor.
    pub fn new() -> HwpExtractor {
        HwpExtractor
    }
}

impl DocxExtractor {
    /// A Word extractor.
    pub fn new() -> DocxExtractor {
        DocxExtractor
    }
}

impl XlsxExtractor {
    /// An Excel extractor.
    pub fn new() -> XlsxExtractor {
        XlsxExtractor
    }
}

impl PptxExtractor {
    /// A PowerPoint extractor.
    pub fn new() -> PptxExtractor {
        PptxExtractor
    }
}

/// One of the format extractors.
#[derive(Debug, Clone, Copy)]
pub enum ExtractorType {
    Text(TextExtractor),
    Pdf(PdfExtractor),
    Hwp(HwpExtractor),
    Docx(DocxExtractor),
    Xlsx(XlsxExtractor),
    Pptx(PptxExtractor),
}

/// Which extractor, if any, handles the file at `p`: the extension is
/// matched case-insensitively, and every extension the watcher accepts has
/// an extractor.
pub open spec fn extractor_spec(p: Seq<char>) -> Option<ExtractorType> {
    match ext_spec(file_name_spec(p)) {
        Some(e) => {
            let l = lower_seq(e);
            if l == "txt"@ || l == "md"@ || l == "rst"@ || l == "log"@ {
                Some(ExtractorType::Text(TextExtractor))
            } else if l == "pdf"@ {
                Some(ExtractorType::Pdf(PdfExtractor))
            } else if l == "hwp"@ {
                Some(ExtractorType::Hwp(HwpExtractor))
            } else if l == "docx"@ {
                Some(ExtractorType::Docx(DocxExtractor))
            } else if l == "xlsx"@ {
                Some(ExtractorType::Xlsx(XlsxExtractor))
            } else if l == "pptx"@ {
                Some(ExtractorType::Pptx(PptxExtractor))
            } else {
                None
            }
        },
        None => None,
    }
}

/// Picks the extractor for a path by its extension, or none.
pub fn extractor_from_file_path(file_path: &str) -> (r: Option<ExtractorType>)
    ensures
        r == extractor_spec(file_path@),
{
    let name = file_name_of(file_path);
    let (_stem, ext) = split_name(name.as_str());
    match ext {
        Some(e) => {
            let low = lower_ascii(e.as_str());
            let es = low.as_str();
            if eq_str(es, "txt") || eq_str(es, "md") || eq_str(es, "rst") || eq_str(es, "log") {
                Some(ExtractorType::Text(TextExtractor::new()))
            } else if eq_str(es, "pdf") {
                Some(ExtractorType::Pdf(PdfExtractor::new()))
            } else if eq_str(es, "hwp") {
                Some(ExtractorType::Hwp(HwpExtractor::new()))
            } else if eq_str(es, "docx") {
                Some(ExtractorType::Docx(DocxExtractor::new()))
            } else if eq_str(es, "xlsx") {
                Some(ExtractorType::Xlsx(XlsxExtractor::new()))
            } else if eq_str(es, "pptx") {
                Some(ExtractorType::Pptx(PptxExtractor::new()))
            } else {
                None
            }
        },
        None => None,
    }
}

/// The watcher and the extractor registry agree: a file passes the
/// watcher's extension filter exactly when some extractor handles it, so
/// no watched file is silently skipped by the indexing pipeline.
pub proof fn lemma_supported_iff_extractable(p: Seq<char>)
    ensures
        crate::watch::supported_spec(p) <==> extractor_spec(p) is Some,
{
}

} // verus!
