//! The client context: counters, configuration, metadata, and the
//! serialized registry snapshot.
use mcp_client::client::{
    McpClient, get_version, get_metadata, get_compiled_info, get_bootrom,
};

fn bytes(s: &str) -> Vec<u8> {
    s.as_bytes().to_vec()
}

fn text(v: &[u8]) -> String {
    String::from_utf8(v.to_vec()).unwrap()
}

#[test]
fn version_tag() {
    assert_eq!(text(&get_version()), "v0.1.0");
}

#[test]
fn uptime_counts_up() {
    let mut client = McpClient::new();
    assert_eq!(client.get_uptime(), 0);
    client.increment_uptime();
    client.increment_uptime();
    assert_eq!(client.get_uptime(), 2);
}

#[test]
fn server_url_round_trip() {
    let mut client = McpClient::new();
    assert_eq!(text(&client.get_server_url()), "http://localhost:8081");
    client.set_server_url(bytes("http://other:9"));
    assert_eq!(text(&client.get_server_url()), "http://other:9");
}

#[test]
fn local_health_check_is_healthy() {
    let client = McpClient::new();
    assert_eq!(client.health_check(), 0);
}

#[test]
fn debug_mode_toggles() {
    let mut client = McpClient::new();
    assert!(!client.debug_mode);
    client.set_debug_mode(true);
    assert!(client.debug_mode);
}

#[test]
fn metadata_snapshot() {
    assert_eq!(
        text(&get_metadata(123)),
        "{\"version\":\"1.0.0\",\"memory_events\":[],\"last_health_check\":123}"
    );
}

#[test]
fn memory_events_accumulate_and_clear() {
    let mut client = McpClient::new();
    assert!(client.module_metadata.is_none());
    client.add_memory_event(bytes("first"), 10);
    client.add_memory_event(bytes("second"), 11);
    let meta = client.module_metadata.as_ref().unwrap();
    assert_eq!(text(&meta.version), "1.0.0");
    assert_eq!(meta.last_health_check, 10);
    assert_eq!(meta.memory_events.len(), 2);
    assert_eq!(text(&meta.memory_events[1].text), "second");
    assert_eq!(meta.memory_events[1].timestamp, 11);
    assert!(client.clear_memory_events(20).is_ok());
    let meta = client.module_metadata.as_ref().unwrap();
    assert!(meta.memory_events.is_empty());
    assert_eq!(meta.last_health_check, 20);
}

#[test]
fn compiled_info_banner() {
    let banner = get_compiled_info(&bytes("2024-01-02"), &bytes("abcdef1234567890"));
    assert_eq!(text(&banner), "v0.1.0 built 2024-01-02 (abcdef12)");
}

#[test]
fn bootrom_event_shape() {
    let b = get_bootrom(&bytes("line1\nline2"));
    assert_eq!(
        text(&b),
        "{\"id\":\"bootrom\",\"name\":\"BOOTROM\",\"text\":\"line1\\u000aline2\",\
         \"timestamp\":0}"
    );
    let v: serde_json::Value = serde_json::from_slice(&b).unwrap();
    assert_eq!(v["text"].as_str(), Some("line1\nline2"));
}

#[test]
fn server_info_empty_registry() {
    let client = McpClient::new();
    assert_eq!(text(&client.get_server_info()), "{\"servers\":{},\"default_server\":null}");
}

#[test]
fn server_info_shows_whole_records() {
    let mut client = McpClient::new();
    client.initialize_mcp_server_begin(&bytes("http://one"), 5);
    client.initialize_mcp_server_begin(&bytes("http://two"), 6);
    client.registry.commit_handshake_success(
        &bytes("http://two"),
        bytes("second server"),
        bytes("3.1"),
        Vec::new(),
        Some(bytes("s")),
    );
    let info = client.get_server_info();
    let v: serde_json::Value = serde_json::from_slice(&info).unwrap();
    assert_eq!(v["default_server"].as_str(), Some("http://one"));
    let one = &v["servers"]["http://one"];
    assert_eq!(one["status"].as_str(), Some("initializing"));
    assert_eq!(one["name"].as_str(), Some("MCP Server at http://one"));
    assert_eq!(one["version"].as_str(), Some("unknown"));
    assert_eq!(one["last_health_check"].as_i64(), Some(5));
    assert!(one["session_id"].is_null());
    assert!(one["tools"].as_array().unwrap().is_empty());
    let two = &v["servers"]["http://two"];
    assert_eq!(two["status"].as_str(), Some("connected"));
    assert_eq!(two["name"].as_str(), Some("second server"));
    assert_eq!(two["version"].as_str(), Some("3.1"));
    assert_eq!(two["session_id"].as_str(), Some("s"));
}
