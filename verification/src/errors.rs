//! The error taxonomy.
//!
//! Every error kind the library surfaces, with constructors and the
//! classification predicates callers branch on.  Sources are carried as
//! plain strings; paths are carried as strings.

use vstd::prelude::*;

verus! {

/// Errors of the core library.
#[derive(Debug, Clone)]
pub enum CoreError {
    /// An I/O operation failed.
    Io(String),
    /// Configuration loading, parsing or validation failed.
    Config(String),
    /// The operation was attempted on an unsupported file type.
    UnsupportedFileType { path: String },
    /// A required path does not exist.
    PathNotFound { path: String },
    /// Content extraction failed for a file.
    Extractor { path: String, source: String },
    /// Language-model processing failed.
    Llm(String),
    /// The user cancelled the operation.
    UserCancelled,
    /// Anything that fits no other kind.
    Generic { message: String },
}

impl CoreError {
    /// Builds a `Generic` error.
    pub fn generic(msg: String) -> (r: CoreError)
        ensures
            r == (CoreError::Generic { message: msg }),
    {
        CoreError::Generic { message: msg }
    }

    /// Builds an `UnsupportedFileType` error.
    pub fn unsupported_file_type(path: String) -> (r: CoreError)
        ensures
            r == (CoreError::UnsupportedFileType { path }),
    {
        CoreError::UnsupportedFileType { path }
    }

    /// Builds a `PathNotFound` error.
    pub fn path_not_found(path: String) -> (r: CoreError)
        ensures
            r == (CoreError::PathNotFound { path }),
    {
        CoreError::PathNotFound { path }
    }

    /// Builds an `Extractor` error wrapping the extractor's own message.
    pub fn extractor_error(path: String, source: String) -> (r: CoreError)
        ensures
            r == (CoreError::Extractor { path, source }),
    {
        CoreError::Extractor { path, source }
    }

    /// Whether retrying with different input might succeed.
    pub fn is_recoverable(&self) -> (r: bool)
        ensures
            r == (self is PathNotFound || self is UnsupportedFileType || self is Config),
    {
        match self {
            CoreError::PathNotFound { .. } => true,
            CoreError::UnsupportedFileType { .. } => true,
            CoreError::Config(_) => true,
            _ => false,
        }
    }

    /// Whether this error records a user cancellation.
    pub fn is_user_cancelled(&self) -> (r: bool)
        ensures
            r == (self is UserCancelled),
    {
        match self {
            CoreError::UserCancelled => true,
            _ => false,
        }
    }

    /// The file path this error is about, if it carries one.
    pub fn file_path(&self) -> (r: Option<&String>)
        ensures
            match self {
                CoreError::UnsupportedFileType { path } => r == Some(path),
                CoreError::PathNotFound { path } => r == Some(path),
                CoreError::Extractor { path, .. } => r == Some(path),
                _ => r is None,
            },
    {
        match self {
            CoreError::UnsupportedFileType { path } => Some(path),
            CoreError::PathNotFound { path } => Some(path),
            CoreError::Extractor { path, .. } => Some(path),
            _ => None,
        }
    }
}

/// Errors of the command-line layer.
#[derive(Debug, Clone)]
pub enum CliError {
    /// An error of the core library.
    Core(CoreError),
    /// An I/O operation failed.
    Io(String),
    /// A command-line argument was invalid.
    InvalidArgument { message: String },
    /// The user cancelled the operation.
    UserCancelled,
    /// Configuration validation failed.
    Config(String),
    /// A required file was not found.
    FileNotFound { path: String },
    /// No such command exists.
    CommandNotFound { command: String },
}

impl CliError {
    /// Builds an `InvalidArgument` error.
    pub fn invalid_argument(message: String) -> (r: CliError)
        ensures
            r == (CliError::InvalidArgument { message }),
    {
        CliError::InvalidArgument { message }
    }

    /// Builds a `Config` error.
    pub fn config(message: String) -> (r: CliError)
        ensures
            r == CliError::Config(message),
    {
        CliError::Config(message)
    }

    /// Builds a `FileNotFound` error.
    pub fn file_not_found(path: String) -> (r: CliError)
        ensures
            r == (CliError::FileNotFound { path }),
    {
        CliError::FileNotFound { path }
    }

    /// Builds a `CommandNotFound` error.
    pub fn command_not_found(command: String) -> (r: CliError)
        ensures
            r == (CliError::CommandNotFound { command }),
    {
        CliError::CommandNotFound { command }
    }
}

/// Errors of the local language-model client.
#[derive(Debug, Clone)]
pub enum LlmError {
    /// The model could not be loaded: path, then cause.
    ModelLoad(String, String),
    /// The inference context could not be created.
    ContextCreation(String),
    /// The prompt could not be tokenized.
    Tokenization(String),
    /// Inference itself failed.
    Inference(String),
    /// The client configuration was invalid.
    Configuration(String),
    /// No model file exists at the given path.
    ModelNotFound(String),
    /// An I/O operation failed.
    Io(String),
    /// An internal error occurred.
    Internal(String),
}

impl LlmError {
    /// Builds a `ModelLoad` error from a path and a cause.
    pub fn model_load(path: &str, source: &str) -> (r: LlmError)
        ensures
            r matches LlmError::ModelLoad(p, s) && p@ == path@ && s@ == source@,
    {
        LlmError::ModelLoad(path.to_owned(), source.to_owned())
    }
}

/// Errors of the text extractors.
#[derive(Debug, Clone)]
pub enum ExtractorError {
    /// Reading the file failed: path, then cause.
    Io { path: String, source: String },
    /// The file's bytes are not valid UTF-8.
    Utf8Decoding { path: String },
    /// A dependency a format needs is unavailable.
    DependencyUnavailable { feature_name: String, details: String },
    /// The file does not follow its format.
    FormatError { path: String, details: String },
    /// No extractor handles this file type.
    UnsupportedFormat { path: String },
}

impl ExtractorError {
    /// Builds a `FormatError`.
    pub fn format_error(path: String, details: String) -> (r: ExtractorError)
        ensures
            r == (ExtractorError::FormatError { path, details }),
    {
        ExtractorError::FormatError { path, details }
    }

    /// Builds an `UnsupportedFormat` error.
    pub fn unsupported_format(path: String) -> (r: ExtractorError)
        ensures
            r == (ExtractorError::UnsupportedFormat { path }),
    {
        ExtractorError::UnsupportedFormat { path }
    }
}

} // verus!
