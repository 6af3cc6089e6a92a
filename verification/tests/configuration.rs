use twins::anthropic::config::Config as AnthropicConfig;
use twins::openai::config::Config;
use twins::settings::{Mode, RecordFormat};

/// Enough of a test for the addresses below.
fn is_address(text: &str) -> bool {
    text.contains(':')
}

#[test]
fn config_loads_from_environment() {
    let config = Config::from_lookup(
        &|name: &str| match name {
            "TWIN_OPENAI_BIND_ADDR" => Some("127.0.0.1:4100".to_string()),
            "TWIN_OPENAI_REQUIRE_AUTH" | "TWIN_OPENAI_ENABLE_ADMIN" => Some("false".to_string()),
            _ => None,
        },
        &is_address,
    )
    .expect("config should load");

    assert_eq!(config.bind_addr.to_string(), "127.0.0.1:4100");
    assert!(!config.require_auth);
    assert!(!config.enable_admin);
}

#[test]
fn the_generic_upstream_key_and_record_format_parse() {
    let lookup = |name: &str| match name {
        "TWIN_OPENAI_UPSTREAM_API_KEY" => Some("generic-key".to_owned()),
        "TWIN_OPENAI_RECORD_FORMAT" => Some("transcript".to_owned()),
        "TWIN_OPENAI_MODE" => Some("proxy-record".to_owned()),
        "TWIN_OPENAI_RECORDING_PATH" => Some("recording.json".to_owned()),
        _ => None,
    };
    let config = Config::from_lookup(&lookup, &is_address).expect("config should parse");
    assert_eq!(config.upstream_api_key.as_deref(), Some("generic-key"));
    assert_eq!(config.record_format, RecordFormat::Transcript);

    let invalid =
        |name: &str| (name == "TWIN_OPENAI_RECORD_FORMAT").then_some("verbatim".to_owned());
    assert!(Config::from_lookup(&invalid, &is_address).is_err());
}

fn openai_error(name: &'static str, value: &'static str) -> String {
    let lookup = move |key: &str| (key == name).then_some(value.to_owned());
    match Config::from_lookup(&lookup, &is_address) {
        Ok(_) => panic!("{name}={value} was accepted"),
        Err(error) => error,
    }
}

#[test]
fn openai_settings_report_their_faults() {
    assert_eq!(
        openai_error("TWIN_OPENAI_BIND_ADDR", "bad"),
        "invalid TWIN_OPENAI_BIND_ADDR"
    );
    assert_eq!(
        openai_error("TWIN_OPENAI_REQUIRE_AUTH", "yes"),
        "TWIN_OPENAI_REQUIRE_AUTH must be true/false or 1/0"
    );
    assert_eq!(
        openai_error("TWIN_OPENAI_ENABLE_ADMIN", ""),
        "TWIN_OPENAI_ENABLE_ADMIN must be true/false or 1/0"
    );
    assert_eq!(
        openai_error("TWIN_OPENAI_ALLOW_UNMATCHED", "TRUE"),
        "TWIN_OPENAI_ALLOW_UNMATCHED must be true/false or 1/0"
    );
    assert_eq!(
        openai_error("TWIN_OPENAI_MODE", "mirror"),
        "TWIN_OPENAI_MODE must be twin or proxy-record, got mirror"
    );
    assert_eq!(
        openai_error("TWIN_OPENAI_RECORD_FORMAT", "verbatim"),
        "TWIN_OPENAI_RECORD_FORMAT must be semantic or transcript, got verbatim"
    );
    assert_eq!(
        openai_error("TWIN_OPENAI_MODE", "proxy-record"),
        "proxy-record mode requires OPENAI_API_KEY"
    );
    let keyed = Config::from_lookup(
        &|name: &str| match name {
            "TWIN_OPENAI_MODE" => Some("proxy-record".to_owned()),
            "OPENAI_API_KEY" => Some("key".to_owned()),
            _ => None,
        },
        &is_address,
    );
    assert_eq!(
        keyed.err().expect("no path"),
        "proxy-record mode requires TWIN_OPENAI_RECORDING_PATH"
    );
}

#[test]
fn openai_settings_have_defaults() {
    let config = Config::from_lookup(&|_: &str| None, &is_address).expect("defaults");
    assert_eq!(config.bind_addr, "127.0.0.1:3000");
    assert_eq!(config.upstream_url, "https://api.openai.com");
    assert!(config.require_auth && config.enable_admin && !config.allow_unmatched);
    assert_eq!(config.mode, Mode::Twin);
    assert_eq!(config.record_format, RecordFormat::Semantic);
    assert!(config.upstream_responses_path.is_none());
    let moved = |key: &str| {
        (key == "TWIN_OPENAI_BIND_ADDR").then_some("127.0.0.1:4100".to_owned())
    };
    assert_eq!(
        Config::from_lookup_or_default(&moved, &is_address).bind_addr,
        "127.0.0.1:4100"
    );
    let default = Config::default();
    assert_eq!(default.bind_addr, config.bind_addr);
    assert_eq!(default.upstream_url, config.upstream_url);

    let slashed = Config::from_lookup(
        &|name: &str| match name {
            "TWIN_OPENAI_UPSTREAM_URL" => Some("http://gate//".to_owned()),
            "OPENAI_API_KEY" => Some("fallback".to_owned()),
            "TWIN_OPENAI_UPSTREAM_API_KEY" => Some(String::new()),
            _ => None,
        },
        &is_address,
    )
    .expect("slashes");
    assert_eq!(slashed.upstream_url, "http://gate");
    assert_eq!(slashed.upstream_api_key.as_deref(), Some("fallback"));
}

#[test]
fn anthropic_settings_are_read() {
    let cfg = AnthropicConfig::from_lookup(
        &|name: &str| match name {
            "TWIN_ANTHROPIC_MODE" => Some("proxy-record".to_owned()),
            "TWIN_ANTHROPIC_RECORD_FORMAT" => Some("transcript".to_owned()),
            "TWIN_ANTHROPIC_RECORDING_APPEND" => Some("true".to_owned()),
            "TWIN_ANTHROPIC_UPSTREAM_API_KEY" => Some(String::new()),
            "ANTHROPIC_API_KEY" => Some("upstream-key".to_owned()),
            "TWIN_ANTHROPIC_RECORDING_PATH" => Some("recording.json".to_owned()),
            _ => None,
        },
        &is_address,
    )
    .expect("config");
    assert_eq!(cfg.mode, Mode::ProxyRecord);
    assert_eq!(cfg.record_format, RecordFormat::Transcript);
    assert!(cfg.recording_append);
    assert_eq!(cfg.upstream_api_key.as_deref(), Some("upstream-key"));
    let default = AnthropicConfig::from_lookup(&|_: &str| None, &is_address).expect("defaults");
    assert_eq!(default.bind_addr, "127.0.0.1:3001");
    for (name, value) in [
        ("TWIN_ANTHROPIC_REQUIRE_AUTH", "yes"),
        ("TWIN_ANTHROPIC_MODE", "bad"),
        ("TWIN_ANTHROPIC_RECORD_FORMAT", "bad"),
        ("TWIN_ANTHROPIC_BIND_ADDR", "bad"),
        ("TWIN_ANTHROPIC_UPSTREAM_MESSAGES_PATH", "no-slash"),
    ] {
        let lookup = |key: &str| (key == name).then_some(value.to_owned());
        assert!(AnthropicConfig::from_lookup(&lookup, &is_address).is_err());
    }
    let bad = |key: &str| match key {
        "TWIN_ANTHROPIC_BIND_ADDR" => Some("bad".to_owned()),
        "TWIN_ANTHROPIC_ALLOW_UNMATCHED" => Some("true".to_owned()),
        _ => None,
    };
    let fixed = AnthropicConfig::from_lookup_or_default(&bad, &is_address);
    assert_eq!(fixed.bind_addr, "127.0.0.1:3001");
    assert!(!fixed.allow_unmatched);
    let recording = AnthropicConfig {
        mode: Mode::ProxyRecord,
        ..AnthropicConfig::default()
    };
    assert!(recording.validate().is_err());
}
