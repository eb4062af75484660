use std::path::PathBuf;

use nostr_sync::config::{
    default_web_listen_addr, BaseConfig, Config, ListenAddr, EVENTS_DB_FILE_NAME,
    GOSSIP_DB_FILE_NAME,
};
use nostr_sync::error::Error;
use nostr_sync::relay::{default_discovery_relays, parse_relay_list, Relay};

fn workdir() -> PathBuf {
    PathBuf::from("/tmp/nostr-sync-test")
}

fn events_path() -> PathBuf {
    workdir().join(EVENTS_DB_FILE_NAME)
}

fn gossip_path() -> PathBuf {
    workdir().join(GOSSIP_DB_FILE_NAME)
}

/// The address that an `a.b.c.d:port` text names.
fn v4(a: u8, b: u8, c: u8, d: u8, port: u16) -> ListenAddr {
    ListenAddr::V4 { ipv4: u32::from_be_bytes([a, b, c, d]), port }
}

/// The addresses the tests give as text.
fn listen_addr(s: &str) -> ListenAddr {
    match s {
        "127.0.0.1:8080" => v4(127, 0, 0, 1, 8080),
        "0.0.0.0:3000" => v4(0, 0, 0, 0, 3000),
        "127.0.0.1:44552" => v4(127, 0, 0, 1, 44552),
        "[::1]:9000" => ListenAddr::V6 { ipv6: 1, port: 9000, flowinfo: 0, scope_id: 0 },
        _ => panic!("unknown address {}", s),
    }
}

fn read(env_addr: Option<&str>, env_relays: Option<&str>) -> Result<Config, Error> {
    Config::resolve(events_path(), gossip_path(), None, env_addr.map(listen_addr), env_relays)
}

fn any_relay(config: &Config, pred: impl Fn(&str) -> bool) -> bool {
    config.nostr.discovery_relays.relays().iter().any(|r| pred(r.as_str()))
}

#[test]
fn test_config_with_env_relays_valid() {
    let config = read(
        None,
        Some("wss://relay.example1,wss://example2.wine,wss://relay.example3.social"),
    )
    .expect("Failed to read config");

    assert_eq!(config.nostr.discovery_relays.len(), 3);
    assert!(any_relay(&config, |r| r.contains("example1")));
    assert!(any_relay(&config, |r| r.contains("example2.wine")));
    assert!(any_relay(&config, |r| r.contains("example3.social")));
}

#[test]
fn test_config_with_env_relays_single() {
    let config = read(None, Some("wss://relay.example1")).expect("Failed to read config");

    assert_eq!(config.nostr.discovery_relays.len(), 1);
    assert!(config
        .nostr
        .discovery_relays
        .contains(&Relay::parse("wss://relay.example1").unwrap()));
}

#[test]
fn test_config_with_env_relays_empty_string() {
    let config = read(None, Some("")).expect("Failed to read config");

    // Should use defaults when empty string
    assert!(!config.nostr.discovery_relays.is_empty());
    assert!(config.nostr.discovery_relays.same_relays(&default_discovery_relays()));
}

#[test]
fn test_config_with_env_relays_invalid_url() {
    let result = read(None, Some("invalid-url, wss://valid.relay"));
    assert!(result.is_err());

    match result {
        Err(Error::InvalidRelayUrl(url, _)) => {
            assert_eq!(url, "invalid-url");
        }
        _ => panic!("Expected InvalidRelayUrl error"),
    }
}

#[test]
fn test_config_with_env_relays_malformed() {
    let result = read(None, Some("relay.example1"));
    assert!(result.is_err());

    match result {
        Err(Error::InvalidRelayUrl(url, _)) => {
            assert_eq!(url, "relay.example1");
        }
        _ => panic!("Expected InvalidRelayUrl error"),
    }
}

#[test]
fn test_config_with_env_relays_trailing_comma() {
    let config = read(None, Some("wss://relay.example1,")).expect("Failed to read config");

    // Should parse single relay ignoring trailing comma
    assert_eq!(config.nostr.discovery_relays.len(), 1);
    assert!(config
        .nostr
        .discovery_relays
        .contains(&Relay::parse("wss://relay.example1").unwrap()));
}

#[test]
fn test_config_with_env_relays_extra_spaces() {
    let config = read(
        None,
        Some("  wss://relay.example1  ,  wss://example2.wine  ,  wss://relay.example3.social  "),
    )
    .expect("Failed to read config");

    assert_eq!(config.nostr.discovery_relays.len(), 3);
    // URLs should be trimmed and normalized
    assert!(any_relay(&config, |r| r == "wss://relay.example1"));
    assert!(any_relay(&config, |r| r == "wss://example2.wine"));
    assert!(any_relay(&config, |r| r == "wss://relay.example3.social"));
}

#[test]
fn test_config_with_env_web_addr() {
    let config = read(Some("127.0.0.1:8080"), None).expect("Failed to read config");

    assert_eq!(config.web.listen_addr, listen_addr("127.0.0.1:8080"));
}

#[test]
fn test_config_with_env_web_addr_and_relays() {
    let config = read(Some("0.0.0.0:3000"), Some("wss://relay.example1,wss://example2.wine"))
        .expect("Failed to read config");

    assert_eq!(config.web.listen_addr, listen_addr("0.0.0.0:3000"));
    assert_eq!(config.nostr.discovery_relays.len(), 2);
    assert!(any_relay(&config, |r| r.contains("example1")));
    assert!(any_relay(&config, |r| r.contains("example2.wine")));
}

#[test]
fn test_config_without_env_uses_defaults() {
    let config = read(None, None).expect("Failed to read config");

    // Should use default web listen addr
    assert_eq!(config.web.listen_addr, default_web_listen_addr());

    // Should use default discovery relays
    assert!(config.nostr.discovery_relays.same_relays(&default_discovery_relays()));
}

#[test]
fn test_config_env_relays_overrides_file() {
    // The configuration file's settings
    let mut file_config = BaseConfig::default();
    file_config.web.listen_addr = Some(listen_addr("127.0.0.1:8080"));
    file_config.nostr.discovery_relays =
        Some(parse_relay_list("wss://old.relay1,wss://old.relay2").unwrap());

    let config = Config::resolve(
        events_path(),
        gossip_path(),
        Some(file_config),
        None,
        Some("wss://new.relay1,wss://new.relay2"),
    )
    .expect("Failed to read config");

    // Should use ENV values, not file values
    assert_eq!(config.nostr.discovery_relays.len(), 2);
    assert!(any_relay(&config, |r| r.contains("new.relay1")));
    assert!(any_relay(&config, |r| r.contains("new.relay2")));
}

#[test]
fn file_values_are_used_without_environment() {
    let mut file_config = BaseConfig::default();
    file_config.web.listen_addr = Some(listen_addr("127.0.0.1:8080"));
    file_config.nostr.discovery_relays = Some(parse_relay_list("wss://old.relay1").unwrap());

    let config = Config::resolve(events_path(), gossip_path(), Some(file_config), None, None).unwrap();
    assert_eq!(config.web.listen_addr, listen_addr("127.0.0.1:8080"));
    assert_eq!(config.nostr.discovery_relays.len(), 1);
    assert!(any_relay(&config, |r| r == "wss://old.relay1"));
}

#[test]
fn blank_env_relays_keep_file_relays() {
    let mut file_config = BaseConfig::default();
    file_config.nostr.discovery_relays = Some(parse_relay_list("wss://old.relay1").unwrap());

    let config = Config::resolve(events_path(), gossip_path(), Some(file_config), None, Some(" , ,\t")).unwrap();
    assert_eq!(config.nostr.discovery_relays.len(), 1);
    assert!(any_relay(&config, |r| r == "wss://old.relay1"));
}

#[test]
fn env_listen_addr_overrides_file() {
    let mut file_config = BaseConfig::default();
    file_config.web.listen_addr = Some(listen_addr("127.0.0.1:8080"));

    let config =
        Config::resolve(events_path(), gossip_path(), Some(file_config), Some(listen_addr("[::1]:9000")), None)
            .unwrap();
    assert_eq!(config.web.listen_addr, listen_addr("[::1]:9000"));
}

#[test]
fn default_listen_addr_is_localhost_44552() {
    assert_eq!(default_web_listen_addr(), listen_addr("127.0.0.1:44552"));
}

#[test]
fn default_relays_are_the_three_known_relays() {
    let defaults = default_discovery_relays();
    assert_eq!(defaults.len(), 3);
    let texts: Vec<&str> = defaults.relays().iter().map(|r| r.as_str()).collect();
    assert_eq!(
        texts,
        vec!["wss://purplepag.es", "wss://relay.damus.io", "wss://relay.primal.net"]
    );
}

#[test]
fn database_paths_lie_in_the_workdir() {
    let config = read(None, None).unwrap();
    assert_eq!(config.nostr.events_path, workdir().join("events.db"));
    assert_eq!(config.nostr.gossip_path, workdir().join("gossip.db"));
}

#[test]
fn workdir_must_be_a_directory() {
    assert!(matches!(
        nostr_sync::config::ensure_directory(workdir(), false),
        Err(Error::NotADirectory)
    ));
    assert_eq!(nostr_sync::config::ensure_directory(workdir(), true).unwrap(), workdir());
}
