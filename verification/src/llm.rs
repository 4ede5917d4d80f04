//! Configuration of the local language-model client.

use vstd::prelude::*;

use crate::errors::LlmError;

verus! {

/// The default ceiling on generated tokens.
pub const DEFAULT_MAX_TOKENS: u32 = 32;

/// The default context window.
pub const DEFAULT_CONTEXT_SIZE: u32 = 8192;

/// The default generation seed.
pub const DEFAULT_SEED: u32 = 103;

/// The default token batch size.
pub const DEFAULT_BATCH_SIZE: usize = 8192;

/// The default number of model layers offloaded to an accelerator.
pub const DEFAULT_GPU_LAYERS: u32 = 1000;

/// How many codepoints of a document feed the summarising prompt.
pub const DEFAULT_CONTENT_TRUNCATION: usize = 8000;

/// The name used when no usable stem survives sanitisation.
pub const FALLBACK_FILENAME: &'static str = "suggested_filename";

/// The ceiling a filename may reach, in codepoints.
pub const MAX_FILENAME_LENGTH: usize = 255;

/// Configuration of the local inference client.
#[derive(Debug, Clone)]
pub struct LlmConfig {
    /// Where the model file lives.
    pub model_path: String,
    /// The ceiling on generated tokens.
    pub max_tokens: u32,
    /// The model's context window.
    pub context_size: u32,
    /// How many threads inference may use; the runtime picks when absent.
    pub threads: Option<u32>,
    /// The generation seed.
    pub seed: u32,
    /// How many model layers an accelerator takes.
    pub gpu_layers: u32,
}

impl LlmConfig {
    /// A configuration with the default limits for the given model file.
    pub fn new(model_path: String) -> (r: LlmConfig)
        ensures
            r.model_path == model_path,
            r.max_tokens == DEFAULT_MAX_TOKENS,
            r.context_size == DEFAULT_CONTEXT_SIZE,
            r.threads is None,
            r.seed == DEFAULT_SEED,
            r.gpu_layers == DEFAULT_GPU_LAYERS,
    {
        LlmConfig {
            model_path,
            max_tokens: DEFAULT_MAX_TOKENS,
            context_size: DEFAULT_CONTEXT_SIZE,
            threads: None,
            seed: DEFAULT_SEED,
            gpu_layers: DEFAULT_GPU_LAYERS,
        }
    }

    /// Replaces the token ceiling.
    pub fn with_max_tokens(self, max_tokens: u32) -> (r: LlmConfig)
        ensures
            r == (LlmConfig { max_tokens, ..self }),
    {
        LlmConfig { max_tokens, ..self }
    }

    /// Replaces the context size.
    pub fn with_context_size(self, context_size: u32) -> (r: LlmConfig)
        ensures
            r == (LlmConfig { context_size, ..self }),
    {
        LlmConfig { context_size, ..self }
    }

    /// Fixes the thread count.
    pub fn with_threads(self, threads: u32) -> (r: LlmConfig)
        ensures
            r == (LlmConfig { threads: Some(threads), ..self }),
    {
        LlmConfig { threads: Some(threads), ..self }
    }

    /// Replaces the seed.
    pub fn with_seed(self, seed: u32) -> (r: LlmConfig)
        ensures
            r == (LlmConfig { seed, ..self }),
    {
        LlmConfig { seed, ..self }
    }

    /// Replaces the accelerator layer count.
    pub fn with_gpu_layers(self, gpu_layers: u32) -> (r: LlmConfig)
        ensures
            r == (LlmConfig { gpu_layers, ..self }),
    {
        LlmConfig { gpu_layers, ..self }
    }

    /// Checks the configuration.  `model_path_exists` reports whether a
    /// file is present at `model_path`; the caller establishes it at the
    /// filesystem edge.  Valid exactly when the model exists, the token
    /// ceiling is positive and the context window holds at least 512.
    pub fn validate(&self, model_path_exists: bool) -> (r: Result<(), LlmError>)
        ensures
            r is Ok <==> (model_path_exists && self.max_tokens > 0 && self.context_size >= 512),
            !model_path_exists ==> (r matches Err(LlmError::ModelNotFound(p)) && p@
                == self.model_path@),
            model_path_exists && self.max_tokens == 0 ==> r matches Err(
                LlmError::Configuration(_),
            ),
            model_path_exists && self.max_tokens > 0 && self.context_size < 512 ==> r matches Err(
                LlmError::Configuration(_),
            ),
    {
        if !model_path_exists {
            return Err(LlmError::ModelNotFound(self.model_path.clone()));
        }
        if self.max_tokens == 0 {
            return Err(LlmError::Configuration("max_tokens must be greater than 0".to_owned()));
        }
        if self.context_size < 512 {
            return Err(LlmError::Configuration("context_size must be at least 512".to_owned()));
        }
        Ok(())
    }
}

} // verus!
