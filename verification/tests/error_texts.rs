use deepagents::memory::protocol::{MemoryError, MemoryErrorCode};
use deepagents::provider::catalog::{ModelLevel, ModelLevelResolutionError};

#[test]
fn memory_error_text_is_code_and_message() {
    let e = MemoryError::new(MemoryErrorCode::NotFound, "missing key");
    assert!(matches!(e.code, MemoryErrorCode::NotFound));
    assert_eq!(e.message, "missing key");
    assert!(e.source.is_none());
    assert!(e.context.is_empty());
    assert_eq!(e.to_text(), "memory_not_found: missing key");
    let e = e.with_context("path", "/a").with_context("key", "k").with_context("path", "/b");
    assert_eq!(e.context.len(), 2);
    assert_eq!(e.context.get("path").map(|s| s.as_str()), Some("/b"));
}

#[test]
fn resolution_error_text_starts_with_code() {
    let cases = vec![
        ModelLevelResolutionError::ProviderDisabled { provider_id: "p".to_string() },
        ModelLevelResolutionError::UnsupportedLevel { provider_id: "p".to_string(), level: ModelLevel::Pro },
        ModelLevelResolutionError::NoProviderAvailable { level: ModelLevel::Lite },
        ModelLevelResolutionError::CredentialsMissing { provider_id: "q".to_string(), env_var: None },
    ];
    for e in &cases {
        assert!(e.to_text().starts_with(&format!("{}: ", e.code())));
    }
    assert_eq!(cases[0].to_text(), "model_level_provider_disabled: p");
    assert_eq!(cases[1].to_text(), "model_level_unsupported_level: p Pro");
    assert_eq!(cases[2].to_text(), "model_level_no_provider_available: Lite");
    assert_eq!(cases[2].code(), "model_level_no_provider_available");
}
