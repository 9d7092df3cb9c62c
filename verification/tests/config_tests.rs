use peerjs_server::calendar::{backup_stamp, date_of_day};
use peerjs_server::config::{backup_path, current_config_version, PartialConfig, ServerConfig};
use peerjs_server::room::client::Client;
use peerjs_server::room::{Room, RoomManage};
use peerjs_server::server::{failure_page, get_peers, log_filter, needs_connection_upgrade, starts_with, str_eq};
use peerjs_server::text::decimal;

fn empty_partial() -> PartialConfig {
    PartialConfig {
        key: None,
        concurrent_limit: None,
        path: None,
        allow_discovery: None,
        alive_timeout: None,
        check_interval: None,
        cleanup_out_msgs: None,
        expire_timeout: None,
        tls_enabled: None,
        tls_cert_path: None,
        tls_key_path: None,
        log_level: None,
        debug_request_headers: None,
        config_version: None,
    }
}

#[test]
fn default_config() {
    let c = ServerConfig::default();
    assert_eq!(c.key, "peerjs");
    assert_eq!(c.concurrent_limit, 5000);
    assert_eq!(c.path, "/peerjs");
    assert!(!c.allow_discovery);
    assert_eq!(c.alive_timeout, 60000);
    assert_eq!(c.check_interval, 300);
    assert_eq!(c.cleanup_out_msgs, 10000);
    assert_eq!(c.expire_timeout, 5000);
    assert!(!c.tls_enabled);
    assert_eq!(c.tls_cert_path, "cert.pem");
    assert_eq!(c.tls_key_path, "key.pem");
    assert_eq!(c.log_level, "info");
    assert!(!c.debug_request_headers);
    assert_eq!(c.config_version, "1.2.0");
    assert_eq!(current_config_version(), "1.2.0");
}

#[test]
fn partial_config_keeps_given_values() {
    let mut p = empty_partial();
    p.key = Some("secret".to_string());
    p.concurrent_limit = Some(10);
    p.tls_enabled = Some(true);
    p.config_version = Some("1.0.0".to_string());
    assert!(p.needs_migration());
    let c = ServerConfig::from_partial(p);
    assert_eq!(c.key, "secret");
    assert_eq!(c.concurrent_limit, 10);
    assert!(c.tls_enabled);
    assert_eq!(c.log_level, "info");
    assert_eq!(c.config_version, "1.2.0");
    let mut current = empty_partial();
    current.config_version = Some("1.2.0".to_string());
    assert!(!current.needs_migration());
    assert!(empty_partial().needs_migration());
    let d = ServerConfig::from_partial(empty_partial());
    assert_eq!(d.key, "peerjs");
    assert_eq!(d.expire_timeout, 5000);
}

#[test]
fn config_file_text_round_values() {
    let text = peerjs_server::config::config_file_text(&ServerConfig::default());
    assert!(text.starts_with("# ========================================\n# PeerJS Server Rust - 配置文件\n"));
    assert!(text.contains("\nconfig_version = \"1.2.0\"\n"));
    assert!(text.contains("\nkey = \"peerjs\"\n"));
    assert!(text.contains("\nconcurrent_limit = 5000\n"));
    assert!(text.contains("\nallow_discovery = false\n"));
    assert!(text.contains("\nalive_timeout = 60000\n"));
    assert!(text.contains("\ntls_cert_path = \"cert.pem\"\n"));
    assert!(text.ends_with("\ndebug_request_headers = false\n"));
}

#[test]
fn numbers_as_text() {
    assert_eq!(decimal(0), "0");
    assert_eq!(decimal(7), "7");
    assert_eq!(decimal(10), "10");
    assert_eq!(decimal(18446744073709551615), "18446744073709551615");
}

#[test]
fn backup_names() {
    assert_eq!(backup_stamp(0), "19700101000000");
    assert_eq!(backup_stamp(1716000000), "20240518024000");
    assert_eq!(backup_stamp(951782400), "20000229000000");
    assert_eq!(backup_stamp(4107542399), "21000228235959");
    assert_eq!(date_of_day(0), (1970, 1, 1));
    assert_eq!(date_of_day(365), (1971, 1, 1));
    assert_eq!(backup_path("config.toml", "20240518024000"), "config.toml.backup.20240518024000");
}

#[test]
fn log_levels() {
    assert_eq!(log_filter("TRACE"), "trace");
    assert_eq!(log_filter("Debug"), "debug");
    assert_eq!(log_filter("info"), "info");
    assert_eq!(log_filter("WARN"), "warn");
    assert_eq!(log_filter("error"), "error");
    assert_eq!(log_filter("verbose"), "info");
    assert_eq!(log_filter(""), "info");
}

#[test]
fn websocket_upgrade_header_fix() {
    assert!(needs_connection_upgrade("/peerjs", Some("websocket")));
    assert!(needs_connection_upgrade("/peerjs/id", Some("WebSocket")));
    assert!(!needs_connection_upgrade("/other", Some("websocket")));
    assert!(!needs_connection_upgrade("/peerjs", Some("h2c")));
    assert!(!needs_connection_upgrade("/peerjs", None));
    assert!(!needs_connection_upgrade("/peer", Some("websocket")));
    assert!(starts_with("abc", "ab"));
    assert!(!starts_with("ab", "abc"));
    assert!(str_eq("x", "x"));
    assert!(!str_eq("x", "y"));
}

#[test]
fn peers_listing_needs_discovery() {
    let mut room = Room::new();
    room.set_client(Client::new("p1".to_string(), "t".to_string()), "p1".to_string());
    assert_eq!(get_peers(&room, false), Err(401));
    assert_eq!(get_peers(&room, true), Ok(vec!["p1".to_string()]));
}

#[test]
fn failure_pages() {
    assert_eq!(
        failure_page(Some("boom".to_string())),
        "<h1>500 - Internal Server Error</h1><p>Something went wrong!</p><p>Panic message: boom</p>"
    );
    assert_eq!(
        failure_page(None),
        "<h1>500 - Internal Server Error</h1><p>Something went wrong!</p><p>Panic message: Unknown panic occurred</p>"
    );
}

#[test]
fn config_file_text_reads_back_as_toml() {
    let mut c = ServerConfig::default();
    c.key = "a\"b\\c".to_string();
    c.path = "l1\nl2\t".to_string();
    c.log_level = "配置".to_string();
    c.tls_cert_path = "it's.pem".to_string();
    c.concurrent_limit = 12;
    c.tls_enabled = true;
    let text = peerjs_server::config::config_file_text(&c);
    let table: toml::Table = toml::from_str(&text).expect("the file is TOML");
    assert_eq!(table["key"].as_str(), Some("a\"b\\c"));
    assert_eq!(table["path"].as_str(), Some("l1\nl2\t"));
    assert_eq!(table["log_level"].as_str(), Some("配置"));
    assert_eq!(table["tls_cert_path"].as_str(), Some("it's.pem"));
    assert_eq!(table["tls_key_path"].as_str(), Some("key.pem"));
    assert_eq!(table["config_version"].as_str(), Some("1.2.0"));
    assert_eq!(table["concurrent_limit"].as_integer(), Some(12));
    assert_eq!(table["alive_timeout"].as_integer(), Some(60000));
    assert_eq!(table["tls_enabled"].as_bool(), Some(true));
    assert_eq!(table["debug_request_headers"].as_bool(), Some(false));
}

#[test]
fn dates_reach_the_end_of_the_day_range() {
    let (y, m, d) = date_of_day(u64::MAX - 719528);
    assert!(y > 50_000_000_000_000);
    assert!((1..=12).contains(&m));
    assert!((1..=31).contains(&d));
}
