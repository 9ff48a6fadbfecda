use firetail::config::{resolve_config, ConfigError};

#[test]
fn resolves_when_both_settings_are_present() {
    let config = resolve_config(
        Some("an-api-key".to_string()),
        Some("https://ingest.example.com".to_string()),
    )
    .unwrap();
    assert_eq!(config.api_key, "an-api-key");
    assert_eq!(config.url, "https://ingest.example.com");
}

#[test]
fn fails_fast_without_the_api_key() {
    let err = resolve_config(None, Some("https://ingest.example.com".to_string())).unwrap_err();
    assert_eq!(err, ConfigError::MissingApiKey);
}

#[test]
fn fails_fast_without_the_url() {
    let err = resolve_config(Some("an-api-key".to_string()), None).unwrap_err();
    assert_eq!(err, ConfigError::MissingUrl);
}

#[test]
fn reports_the_missing_api_key_first() {
    let err = resolve_config(None, None).unwrap_err();
    assert_eq!(err, ConfigError::MissingApiKey);
}
