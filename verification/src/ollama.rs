//! The model-runtime interface: request and response shapes, the filename
//! prompt, and the assembly of a suggested filename from a model's answer.
//! The HTTP calls themselves happen at the caller's edge.

use vstd::prelude::*;

use crate::paths::{ext_spec, file_name_of, file_name_spec, split_name};
use crate::sanitize::{sanitize_filename, sanitize_spec};

verus! {

/// The embedding model the pipeline asks for.
pub const EMBEDDING_MODEL: &'static str = "dengcao/Qwen3-Embedding-0.6B:Q8_0";

/// The instruction-tuned model filename suggestion asks for.
pub const LANGUAGE_MODEL: &'static str = "qwen3:4b-instruct-2507-q4_K_M";

/// The default chunk window, in codepoints.
pub const CHUNK_SIZE: usize = 250;

/// The default chunk overlap, in codepoints.
pub const CHUNK_OVERLAP: usize = 50;

/// Where the model runtime listens by default.
pub const DEFAULT_BASE_URL: &'static str = "http://localhost:11434";

/// The default timeout on inference calls, in seconds.
pub const DEFAULT_TIMEOUT_SECS: u64 = 30;

/// How many representative chunks feed the filename prompt.
pub const KEY_CHUNK_COUNT: usize = 4;

/// A text-generation request.
#[derive(Debug, Clone)]
pub struct OllamaRequest {
    /// The model asked for.
    pub model: String,
    /// The prompt sent.
    pub prompt: String,
    /// Whether the answer streams.
    pub stream: bool,
}

/// A text-generation response.
#[derive(Debug, Clone)]
pub struct OllamaResponse {
    /// The generated text.
    pub response: String,
    /// Whether generation finished.
    pub done: bool,
}

/// An embedding request.
#[derive(Debug, Clone)]
pub struct EmbeddingRequest {
    /// The model asked for.
    pub model: String,
    /// The text to embed.
    pub prompt: String,
}

/// The chunks joined by blank lines, in order.
pub open spec fn joined_spec(chunks: Seq<Seq<char>>) -> Seq<char>
    decreases chunks.len(),
{
    if chunks.len() == 0 {
        Seq::empty()
    } else if chunks.len() == 1 {
        chunks[0]
    } else {
        joined_spec(chunks.drop_last()) + "\n\n"@ + chunks.last()
    }
}

/// Joins the selected chunks into one content summary, a blank line
/// between neighbours.
pub fn join_key_chunks(chunks: &Vec<String>) -> (r: String)
    ensures
        r@ == joined_spec(chunks.deep_view()),
{
    let mut s = String::new();
    let mut i: usize = 0;
    while i < chunks.len()
        invariant
            i <= chunks@.len(),
            s@ == joined_spec(chunks.deep_view().take(i as int)),
        decreases chunks@.len() - i,
    {
        if i > 0 {
            s.append("\n\n");
        }
        s.append(chunks[i].as_str());
        i = i + 1;
        proof {
            assert(chunks.deep_view().take(i as int).drop_last() =~= chunks.deep_view().take(
                i - 1,
            ));
            assert(chunks.deep_view().take(i as int).last() == chunks.deep_view()[i - 1]);
        }
    }
    proof {
        assert(chunks.deep_view().take(chunks.deep_view().len() as int) =~= chunks.deep_view());
    }
    s
}

/// What the filename prompt says, around the content summary and the
/// original name.
pub open spec fn filename_prompt_spec(summary: Seq<char>, original: Seq<char>) -> Seq<char> {
    "You are a helpful assistant that generates concise, descriptive filenames based on document content. \nGenerate a filename that:\n- Is descriptive and meaningful\n- Uses underscores instead of spaces\n- Is professional and organized\n- Does not include special characters except underscores and hyphens\n- Is between 1 to 4 words (excluding extension)\n- Captures the main topic/purpose of the document\n- Respond with ONLY the filename base (without extension), nothing else.\n\nBased on this document content, generate a descriptive filename:\n\nContent summary: "@
        + summary + "\n\nOriginal filename: "@ + original
        + "\n\nGenerate filename (without extension):"@
}

/// Renders the filename prompt for a content summary and the original
/// file name.
pub fn filename_prompt(summary: &str, original_filename: &str) -> (r: String)
    ensures
        r@ == filename_prompt_spec(summary@, original_filename@),
{
    let mut s =
        "You are a helpful assistant that generates concise, descriptive filenames based on document content. \nGenerate a filename that:\n- Is descriptive and meaningful\n- Uses underscores instead of spaces\n- Is professional and organized\n- Does not include special characters except underscores and hyphens\n- Is between 1 to 4 words (excluding extension)\n- Captures the main topic/purpose of the document\n- Respond with ONLY the filename base (without extension), nothing else.\n\nBased on this document content, generate a descriptive filename:\n\nContent summary: ".to_owned();
    s.append(summary);
    s.append("\n\nOriginal filename: ");
    s.append(original_filename);
    s.append("\n\nGenerate filename (without extension):");
    s
}

/// What a finished suggestion looks like: the sanitised stem, carrying the
/// original extension when there is one.
pub open spec fn suggestion_spec(model_output: Seq<char>, original_path: Seq<char>) -> Seq<char> {
    let stem = sanitize_spec(model_output);
    match ext_spec(file_name_spec(original_path)) {
        Some(e) => stem + "."@ + e,
        None => stem,
    }
}

/// Turns a model's raw answer into the suggested filename: the answer is
/// sanitised and the original file's extension, if any, is kept.
pub fn suggested_file_name(model_output: &str, original_path: &str) -> (r: String)
    ensures
        r@ == suggestion_spec(model_output@, original_path@),
{
    let stem = sanitize_filename(model_output);
    let name = file_name_of(original_path);
    let (_s, ext) = split_name(name.as_str());
    match ext {
        Some(e) => {
            let mut r = stem;
            r.append(".");
            r.append(e.as_str());
            r
        },
        None => stem,
    }
}

} // verus!
