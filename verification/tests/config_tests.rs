use file_fairy::cli::CliConfig;
use file_fairy::config::AppConfig;
use file_fairy::errors::{CliError, CoreError, LlmError};
use file_fairy::llm::LlmConfig;

#[test]
fn app_config_defaults_and_builders() {
    let c = AppConfig::new();
    assert_eq!(c.max_tokens, 256);
    assert_eq!(c.context_size, 8192);
    assert_eq!(c.threads, 8);
    assert_eq!(c.seed, 103);

    let c = AppConfig::new()
        .with_model_path("models/x.gguf".to_string())
        .with_max_tokens(64)
        .with_context_size(2048)
        .with_threads(2)
        .with_seed(7);
    assert_eq!(c.model_path, "models/x.gguf");
    assert_eq!(c.max_tokens, 64);
    assert_eq!(c.context_size, 2048);
    assert_eq!(c.threads, 2);
    assert_eq!(c.seed, 7);
}

#[test]
fn app_config_validation() {
    // the model file must exist at the filesystem edge
    assert!(AppConfig::new().validate(true).is_ok());
    assert!(matches!(
        AppConfig::new().validate(false),
        Err(CoreError::PathNotFound { .. })
    ));
    assert!(AppConfig::new().with_max_tokens(0).validate(true).is_err());
    // the context window must hold at least 512
    assert!(matches!(
        AppConfig::new().with_context_size(100).validate(true),
        Err(CoreError::Config(_))
    ));
    assert!(AppConfig::new().with_context_size(0).validate(true).is_err());
    assert!(AppConfig::new().with_context_size(512).validate(true).is_ok());
    assert!(AppConfig::new().with_threads(0).validate(true).is_err());
}

#[test]
fn llm_config_defaults_and_validation() {
    let c = LlmConfig::new("models/m.gguf".to_string());
    assert_eq!(c.max_tokens, 32);
    assert_eq!(c.context_size, 8192);
    assert_eq!(c.threads, None);
    assert_eq!(c.seed, 103);

    let c = c
        .with_max_tokens(1024)
        .with_context_size(4096)
        .with_threads(8)
        .with_seed(42);
    assert_eq!(c.max_tokens, 1024);
    assert_eq!(c.context_size, 4096);
    assert_eq!(c.threads, Some(8));
    assert_eq!(c.seed, 42);

    // the model file must exist at the filesystem edge
    assert!(c.validate(true).is_ok());
    assert!(matches!(c.validate(false), Err(LlmError::ModelNotFound(_))));
    let bad = LlmConfig::new("m".to_string()).with_max_tokens(0);
    assert!(matches!(
        bad.validate(true),
        Err(LlmError::Configuration(_))
    ));
    let small = LlmConfig::new("m".to_string()).with_context_size(100);
    assert!(matches!(
        small.validate(true),
        Err(LlmError::Configuration(_))
    ));
}

#[test]
fn cli_config_checks_model_path() {
    assert!(CliConfig::validate_model_path("m.gguf", true, false).is_ok());
    assert!(matches!(
        CliConfig::validate_model_path("m.gguf", false, false),
        Err(CliError::FileNotFound { .. })
    ));
    assert!(matches!(
        CliConfig::validate_model_path("models", true, true),
        Err(CliError::InvalidArgument { .. })
    ));
}

#[test]
fn cli_config_builds_app_config() {
    let c = CliConfig::create_app_config("m.gguf", 64, 4, true, false).unwrap();
    assert_eq!(c.model_path, "m.gguf");
    assert_eq!(c.max_tokens, 64);
    assert_eq!(c.threads, 4);
    assert!(CliConfig::create_app_config("m.gguf", 0, 4, true, false).is_err());
    assert!(CliConfig::create_app_config("m.gguf", 64, 4, false, false).is_err());
}
