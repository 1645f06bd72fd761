use always_online_node::Mode;
use always_online_node::NetworkConfig;
use always_online_node::config_for_mode;
use always_online_node::log_level;
use always_online_node::network_config;
use always_online_node::wasm_level_to_set;
use always_online_node::LevelParseError;
use always_online_node::LogLevel;

fn defaults() -> NetworkConfig {
    NetworkConfig {
        bootstrap_url: String::from("https://bootstrap.example"),
        signal_url: String::from("wss://signal.example"),
        assist_urls: vec![String::from("https://assist.example")],
        wan_enabled: true,
    }
}

#[test]
fn network_config_keeps_the_defaults_without_overrides() {
    let config = network_config(defaults(), None, None);
    assert_eq!(config.bootstrap_url, "https://bootstrap.example");
    assert_eq!(config.signal_url, "wss://signal.example");
    assert_eq!(config.assist_urls, vec![String::from("https://assist.example")]);
    assert!(config.wan_enabled);
}

#[test]
fn network_config_applies_each_override() {
    let config = network_config(
        defaults(),
        Some(String::from("https://boot.other")),
        Some(String::from("wss://signal.other")),
    );
    assert_eq!(config.bootstrap_url, "https://boot.other");
    assert_eq!(config.signal_url, "wss://signal.other");
}

#[test]
fn config_for_mode_commits_the_mode_and_keeps_the_endpoints() {
    let base = network_config(defaults(), None, None);
    let lan = config_for_mode(&base, Mode::LanOnly);
    assert!(!lan.wan_enabled);
    assert_eq!(lan.bootstrap_url, base.bootstrap_url);
    assert_eq!(lan.signal_url, base.signal_url);
    assert_eq!(lan.assist_urls, base.assist_urls);
    let wan = config_for_mode(&lan, Mode::Wan);
    assert!(wan.wan_enabled);
    assert_eq!(wan.signal_url, base.signal_url);
}

#[test]
fn log_level_defaults_to_info_when_unset() {
    assert_eq!(log_level(None), Ok(LogLevel::Info));
}

#[test]
fn log_level_parses_each_level_without_regard_to_case() {
    assert_eq!(log_level(Some(String::from("error"))), Ok(LogLevel::Error));
    assert_eq!(log_level(Some(String::from("WARN"))), Ok(LogLevel::Warn));
    assert_eq!(log_level(Some(String::from("Info"))), Ok(LogLevel::Info));
    assert_eq!(log_level(Some(String::from("dEbUg"))), Ok(LogLevel::Debug));
    assert_eq!(log_level(Some(String::from("TRACE"))), Ok(LogLevel::Trace));
}

#[test]
fn log_level_refuses_an_unknown_name() {
    assert_eq!(log_level(Some(String::from("verbose"))), Err(LevelParseError));
    assert_eq!(log_level(Some(String::from(""))), Err(LevelParseError));
    assert_eq!(log_level(Some(String::from("information"))), Err(LevelParseError));
}

#[test]
fn wasm_level_is_set_only_when_absent() {
    assert_eq!(wasm_level_to_set(Some(String::from("debug"))), None);
    assert_eq!(wasm_level_to_set(None), Some(String::from("info")));
}
