use file_fairy::info::features::FeatureInfo;

#[test]
fn test_feature_info_creation() {
    let features = FeatureInfo::new();
    assert!(features.text_extraction);
    assert!(features.llm_integration);
    assert!(features.directory_scanning);
    assert!(features.recursive_scanning);
    assert!(features.symlink_support);
    assert!(features.async_processing);
}

#[test]
fn test_enabled_features_list() {
    let features = FeatureInfo::new();
    let enabled = features.enabled_features();
    assert_eq!(enabled.len(), 6);
    assert!(enabled.contains(&"Text Extraction"));
    assert!(enabled.contains(&"LLM Integration"));
}

#[test]
fn test_feature_enabled_check() {
    let features = FeatureInfo::new();
    assert!(features.is_feature_enabled("text_extraction"));
    assert!(features.is_feature_enabled("Text Extraction"));
    assert!(!features.is_feature_enabled("unknown_feature"));
}

#[test]
fn test_disabled_features_with_partial_disable() {
    let mut features = FeatureInfo::new();
    features.llm_integration = false;
    features.symlink_support = false;

    let disabled = features.disabled_features();
    assert_eq!(disabled.len(), 2);
    assert!(disabled.contains(&"LLM Integration"));
    assert!(disabled.contains(&"Symlink Support"));

    let enabled = features.enabled_features();
    assert_eq!(enabled.len(), 4);
}
