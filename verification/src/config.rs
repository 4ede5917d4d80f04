//! Application configuration.

use vstd::prelude::*;

use crate::errors::CoreError;

verus! {

/// Configuration of the core: the local model and its generation limits.
#[derive(Debug, Clone)]
pub struct AppConfig {
    /// Where the language model file lives.
    pub model_path: String,
    /// The ceiling on generated tokens.
    pub max_tokens: u32,
    /// The model's context window.
    pub context_size: u32,
    /// How many worker threads inference may use.
    pub threads: u32,
    /// The generation seed.
    pub seed: u32,
}

impl Default for AppConfig {
    /// The reference configuration.
    fn default() -> (r: AppConfig)
        ensures
            r.model_path@ == "models/default-model.gguf"@,
            r.max_tokens == 256,
            r.context_size == 8192,
            r.threads == 8,
            r.seed == 103,
    {
        AppConfig {
            model_path: "models/default-model.gguf".to_owned(),
            max_tokens: 256,
            context_size: 8192,
            threads: 8,
            seed: 103,
        }
    }
}

impl AppConfig {
    /// A configuration with the default values.
    pub fn new() -> (r: AppConfig)
        ensures
            r.model_path@ == "models/default-model.gguf"@,
            r.max_tokens == 256,
            r.context_size == 8192,
            r.threads == 8,
            r.seed == 103,
    {
        AppConfig::default()
    }

    /// Replaces the model path.
    pub fn with_model_path(self, path: String) -> (r: AppConfig)
        ensures
            r == (AppConfig { model_path: path, ..self }),
    {
        AppConfig { model_path: path, ..self }
    }

    /// Replaces the token ceiling.
    pub fn with_max_tokens(self, tokens: u32) -> (r: AppConfig)
        ensures
            r == (AppConfig { max_tokens: tokens, ..self }),
    {
        AppConfig { max_tokens: tokens, ..self }
    }

    /// Replaces the context size.
    pub fn with_context_size(self, size: u32) -> (r: AppConfig)
        ensures
            r == (AppConfig { context_size: size, ..self }),
    {
        AppConfig { context_size: size, ..self }
    }

    /// Replaces the thread count.
    pub fn with_threads(self, threads: u32) -> (r: AppConfig)
        ensures
            r == (AppConfig { threads, ..self }),
    {
        AppConfig { threads, ..self }
    }

    /// Replaces the seed.
    pub fn with_seed(self, seed: u32) -> (r: AppConfig)
        ensures
            r == (AppConfig { seed, ..self }),
    {
        AppConfig { seed, ..self }
    }

    /// Checks the configuration.  `model_path_exists` reports whether a
    /// file is present at `model_path`; the caller establishes it at the
    /// filesystem edge.  Valid exactly when the model exists, the token
    /// ceiling and thread count are positive, and the context window holds
    /// at least 512.
    pub fn validate(&self, model_path_exists: bool) -> (r: Result<(), CoreError>)
        ensures
            r is Ok <==> (model_path_exists && self.max_tokens > 0 && self.context_size >= 512
                && self.threads > 0),
            !model_path_exists ==> (r matches Err(CoreError::PathNotFound { path: p }) && p@
                == self.model_path@),
            model_path_exists && !(self.max_tokens > 0 && self.context_size >= 512 && self.threads
                > 0) ==> r matches Err(CoreError::Config(_)),
    {
        if !model_path_exists {
            return Err(CoreError::path_not_found(self.model_path.clone()));
        }
        if self.max_tokens == 0 {
            return Err(CoreError::Config("max_tokens must be greater than 0".to_owned()));
        }
        if self.context_size < 512 {
            return Err(CoreError::Config("context_size must be at least 512".to_owned()));
        }
        if self.threads == 0 {
            return Err(CoreError::Config("threads must be greater than 0".to_owned()));
        }
        Ok(())
    }
}

} // verus!
