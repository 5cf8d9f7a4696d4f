use drv_thru::collections::StrMap;
use drv_thru::config::{
    parse_byte_count, parse_duration, ServerConfig, TrustedClient, DEFAULT_MAX_BUILD_TIME,
    DEFAULT_MAX_CONCURRENT_BUILDS, DEFAULT_MAX_UPLOAD_BYTES, DEFAULT_RECENT_BUILDS_LIMIT,
};

fn text(value: &serde_json::Value) -> Option<String> {
    value.as_str().map(str::to_string)
}

fn number(value: &serde_json::Value) -> Option<usize> {
    value.as_u64().map(|n| n as usize)
}

/// A setting that is absent, null or a text.
fn setting(entry: &serde_json::Value, name: &str) -> Option<Option<String>> {
    entry.get(name).map(text)
}

fn config_from(json: &str) -> ServerConfig {
    let value: serde_json::Value = serde_json::from_str(json).unwrap();
    let mut trusted = StrMap::new();
    if let Some(clients) = value["trusted_clients"].as_object() {
        for (name, entry) in clients {
            trusted.insert(
                name.clone(),
                TrustedClient::from_settings(
                    text(&entry["public_key"]).unwrap(),
                    setting(entry, "max_build_time"),
                    setting(entry, "max_upload_bytes"),
                ),
            );
        }
    }
    ServerConfig::from_settings(
        text(&value["data_dir"]).unwrap(),
        text(&value["secret_key_file"]),
        number(&value["max_concurrent_builds"]),
        number(&value["output_cache_max_parallel_fills"]),
        number(&value["recent_builds_limit"]),
        trusted,
    )
}

#[test]
fn server_config_defaults_empty_trusted_clients() {
    let config = config_from(r#"{"data_dir":"/tmp/drv-thru"}"#);

    assert_eq!(config.data_dir, "/tmp/drv-thru");
    assert!(config.secret_key_file.is_none());
    assert_eq!(config.max_concurrent_builds, DEFAULT_MAX_CONCURRENT_BUILDS);
    assert_eq!(config.output_cache_max_parallel_fills, None);
    assert_eq!(config.recent_builds_limit, DEFAULT_RECENT_BUILDS_LIMIT);
    assert!(config.trusted_clients.is_empty());
}

#[test]
fn trusted_client_defaults_optional_fields() {
    let config = config_from(
        r#"{
            "data_dir":"/tmp/drv-thru",
            "trusted_clients":{
                "laptop":{"public_key":"abc"}
            }
        }"#,
    );

    let client = config.trusted_clients.get("laptop").unwrap();
    assert_eq!(client.public_key, "abc");
    assert_eq!(
        client.max_build_time.as_deref(),
        Some(DEFAULT_MAX_BUILD_TIME)
    );
    assert_eq!(
        client.max_upload_bytes.as_deref(),
        Some(DEFAULT_MAX_UPLOAD_BYTES)
    );
}

#[test]
fn trusted_client_without_limits() {
    let config = config_from(
        r#"{"data_dir":"/d","trusted_clients":{"a":{"public_key":"k","max_build_time":null}}}"#,
    );
    let client = config.trusted_clients.get("a").unwrap();
    assert_eq!(client.max_build_time, None);
}

#[test]
fn server_config_accepts_max_concurrent_builds() {
    let config = config_from(r#"{"data_dir":"/tmp/drv-thru","max_concurrent_builds":2}"#);

    assert_eq!(config.max_concurrent_builds, 2);
}

#[test]
fn server_config_accepts_output_cache_max_parallel_fills() {
    let config =
        config_from(r#"{"data_dir":"/tmp/drv-thru","output_cache_max_parallel_fills":8}"#);

    assert_eq!(config.output_cache_max_parallel_fills, Some(8));
}

#[test]
fn load_server_config_rejects_zero_max_concurrent_builds() {
    let config = config_from(r#"{"data_dir":"/tmp/drv-thru","max_concurrent_builds":0}"#);

    assert_eq!(
        config.check().unwrap_err().message(),
        "max_concurrent_builds must be at least 1"
    );
}

#[test]
fn server_config_accepts_recent_builds_limit() {
    let config = config_from(r#"{"data_dir":"/tmp/drv-thru","recent_builds_limit":5}"#);

    assert_eq!(config.recent_builds_limit, 5);
    assert!(config.check().is_ok());
}

#[test]
fn load_server_config_rejects_zero_output_cache_max_parallel_fills() {
    let config =
        config_from(r#"{"data_dir":"/tmp/drv-thru","output_cache_max_parallel_fills":0}"#);

    assert!(config.check().is_err());
}

#[test]
fn load_server_config_rejects_zero_recent_builds_limit() {
    let config = config_from(r#"{"data_dir":"/tmp/drv-thru","recent_builds_limit":0}"#);

    assert!(config.check().is_err());
}

#[test]
fn parses_byte_counts() {
    assert_eq!(parse_byte_count("1").unwrap(), 1);
    assert_eq!(parse_byte_count("2K").unwrap(), 2 * 1024);
    assert_eq!(parse_byte_count("3M").unwrap(), 3 * 1024 * 1024);
    assert_eq!(parse_byte_count("4G").unwrap(), 4 * 1024 * 1024 * 1024);
    assert!(parse_byte_count("1 nope").is_err());
}

#[test]
fn parses_durations() {
    assert_eq!(parse_duration("1").unwrap(), 1);
    assert_eq!(parse_duration("2m").unwrap(), 2 * 60);
    assert_eq!(parse_duration("3h").unwrap(), 3 * 60 * 60);
    assert!(parse_duration("1d").is_err());
}

#[test]
fn limits_that_are_no_limits() {
    assert!(parse_byte_count("").is_err());
    assert!(parse_byte_count("G").is_err());
    assert!(parse_byte_count("18446744073709551615G").is_err());
    assert_eq!(
        parse_byte_count(" 18446744073709551616K ").unwrap_err().messages(),
        [
            "parse number: 18446744073709551616K".to_string(),
            "18446744073709551616".parse::<u64>().unwrap_err().to_string()
        ]
    );
    assert!(parse_duration("18446744073709551615h").is_err());
    assert_eq!(parse_duration("18446744073709551615").unwrap(), u64::MAX);
}
