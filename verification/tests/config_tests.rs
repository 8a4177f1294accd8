use ytm::config::{config_file, Config, ConfigError};

#[test]
fn test_config_default() {
    let config = Config::default();

    assert_eq!(config.api_key(), None);
}

#[test]
fn test_config_with_api_key() {
    let mut config = Config::default();

    config.set_api_key("test_api_key".to_string());
    assert_eq!(config.api_key(), Some(&"test_api_key".to_string()));
}

#[test]
fn test_config_serialization() {
    let mut config = Config::default();
    config.set_api_key("test_key_123".to_string());

    let json = config.to_json();
    assert!(json.contains("test_key_123"));

    let deserialized = Config::from_json(&Some(json));
    assert_eq!(deserialized.api_key(), Some(&"test_key_123".to_string()));
}

#[test]
fn test_config_load_from_invalid_json() {
    let config = Config::from_json(&Some("invalid json content".to_string()));
    assert_eq!(config.api_key(), None);
}

#[test]
fn test_config_paths() {
    let config_path = config_file("/tmp/ytm-test-config/ytm");
    assert!(config_path.starts_with("/tmp/ytm-test-config/ytm"));
    assert!(config_path.ends_with("config.json"));
}

#[test]
fn config_to_json_without_key_writes_null() {
    let config = Config::default();
    assert_eq!(config.to_json(), "{\n  \"api_key\": null\n}");
}

#[test]
fn config_to_json_escapes_quotes_in_key() {
    let mut config = Config::default();
    config.set_api_key("a\"b\\c".to_string());
    let json = config.to_json();
    assert_eq!(json, "{\n  \"api_key\": \"a\\\"b\\\\c\"\n}");

    let back = Config::from_json(&Some(json));
    assert_eq!(back.api_key(), Some(&"a\"b\\c".to_string()));
}

#[test]
fn config_escapes_control_characters_in_key() {
    let mut config = Config::default();
    config.set_api_key("a\tb\nc".to_string());
    let json = config.to_json();
    assert_eq!(json, "{\n  \"api_key\": \"a\\u0009b\\u000ac\"\n}");

    let back = Config::from_json(&Some(json));
    assert_eq!(back.api_key(), Some(&"a\tb\nc".to_string()));
}

#[test]
fn foreign_config_texts_still_load() {
    // compact form, as another tool might write it
    let compact = Config::from_json(&Some("{\"api_key\":\"other_key\"}".to_string()));
    assert_eq!(compact.api_key(), Some(&"other_key".to_string()));

    // extra fields are ignored
    let extra = Config::from_json(&Some(
        "{\"api_key\": \"k2\", \"volume\": 80}".to_string(),
    ));
    assert_eq!(extra.api_key(), Some(&"k2".to_string()));
}

#[test]
fn config_from_missing_file_is_default() {
    let config = Config::from_json(&None);
    assert_eq!(config.api_key(), None);
}

#[test]
fn ensure_api_key_needs_stored_and_valid() {
    let mut config = Config::default();
    assert_eq!(config.ensure_api_key(true), Err(ConfigError::NoValidKey));

    config.set_api_key("k".to_string());
    assert_eq!(config.ensure_api_key(false), Err(ConfigError::NoValidKey));
    assert_eq!(config.ensure_api_key(true), Ok("k".to_string()));

    let msg = ConfigError::NoValidKey.message();
    assert_eq!(msg, "No valid API key available. Use --api to set one.");
}
