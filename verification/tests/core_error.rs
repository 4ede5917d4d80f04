use file_fairy::errors::CoreError;

#[test]
fn test_error_construction() {
    let path = String::from("/test/path");
    let error = CoreError::path_not_found(path.clone());

    assert!(error.is_recoverable());
    assert_eq!(error.file_path(), Some(&path));
}

#[test]
fn test_user_cancellation() {
    let error = CoreError::UserCancelled;
    assert!(error.is_user_cancelled());
    assert!(!error.is_recoverable());
}

#[test]
fn test_generic_error() {
    let error = CoreError::generic("Test message".to_string());
    assert!(!error.is_recoverable());
    assert_eq!(error.file_path(), None);
}
