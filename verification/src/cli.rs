//! Command-line configuration checks.

use vstd::prelude::*;

use crate::config::AppConfig;
use crate::errors::CliError;

verus! {

/// Validation of command-line configuration.
pub struct CliConfig;

impl CliConfig {
    /// Checks that a model path points at a file.  `exists` and `is_dir`
    /// report the filesystem's answers.
    pub fn validate_model_path(path: &str, exists_on_disk: bool, is_dir: bool) -> (r: Result<
        (),
        CliError,
    >)
        ensures
            r is Ok <==> (exists_on_disk && !is_dir),
            !exists_on_disk ==> (r matches Err(CliError::FileNotFound { path: p }) && p@ == path@),
            exists_on_disk && is_dir ==> r matches Err(CliError::InvalidArgument { .. }),
    {
        if !exists_on_disk {
            return Err(CliError::file_not_found(path.to_owned()));
        }
        if is_dir {
            let mut m = "Model path is a directory, expected a file: ".to_owned();
            m.append(path);
            return Err(CliError::invalid_argument(m));
        }
        Ok(())
    }

    /// Builds a validated application configuration from command-line
    /// values.  `model_path_exists` and `model_path_is_dir` report the
    /// filesystem's answers for `model_path`.
    pub fn create_app_config(
        model_path: &str,
        max_tokens: u32,
        threads: u32,
        model_path_exists: bool,
        model_path_is_dir: bool,
    ) -> (r: Result<AppConfig, CliError>)
        ensures
            r is Ok <==> (model_path_exists && !model_path_is_dir && max_tokens > 0 && threads
                > 0),
            r matches Ok(c) ==> {
                &&& c.model_path@ == model_path@
                &&& c.max_tokens == max_tokens
                &&& c.threads == threads
                &&& c.context_size == 8192
                &&& c.seed == 103
            },
    {
        if let Err(e) = CliConfig::validate_model_path(
            model_path,
            model_path_exists,
            model_path_is_dir,
        ) {
            return Err(e);
        }
        let config = AppConfig::new().with_model_path(model_path.to_owned()).with_max_tokens(
            max_tokens,
        ).with_threads(threads);
        match config.validate(model_path_exists) {
            Ok(_) => Ok(config),
            Err(_) => Err(CliError::config("invalid configuration".to_owned())),
        }
    }
}

} // verus!
