//! The registry lifecycle: registration, handshake outcomes, and the
//! default-server pointer.
use mcp_client::registry::{McpServerRegistry, RegisterOutcome, ServerStatus};
use mcp_client::handshake::{
    handshake_request, interpret_handshake, initialized_notification, HandshakeError,
};
use mcp_client::transport::{TransportResult, HttpResponse};
use mcp_client::client::McpClient;

fn bytes(s: &str) -> Vec<u8> {
    s.as_bytes().to_vec()
}

fn text(v: &[u8]) -> String {
    String::from_utf8(v.to_vec()).unwrap()
}

fn handshake_body() -> &'static str {
    "{\"jsonrpc\":\"2.0\",\"id\":1,\"result\":{\
     \"serverInfo\":{\"name\":\"demo\",\"version\":\"2.3\"},\
     \"capabilities\":{\"tools\":{\"echo\":{\"description\":\"repeats\",\"version\":\"1\"},\
     \"sum\":{}}}}}"
}

#[test]
fn handshake_request_shape() {
    let plan = handshake_request(42);
    assert_eq!(
        text(&plan.body),
        "{\"jsonrpc\":\"2.0\",\"method\":\"initialize\",\"params\":{\
         \"protocolVersion\":\"2025-03-26\",\"capabilities\":{\"sampling\":{},\"roots\":[]},\
         \"clientInfo\":{\"name\":\"mcp-browser-client\",\"version\":\"0.1.0\"}},\"id\":42}"
    );
    let headers: Vec<(String, String)> =
        plan.headers.iter().map(|h| (text(&h.0), text(&h.1))).collect();
    assert_eq!(
        headers,
        vec![
            ("Content-Type".to_string(), "application/json".to_string()),
            ("Accept".to_string(), "application/json, text/event-stream".to_string()),
            ("Accept-Language".to_string(), "*".to_string()),
        ]
    );
}

#[test]
fn initialized_notification_shape() {
    let plan = initialized_notification(&bytes("sess-1"));
    assert_eq!(text(&plan.body), "{\"jsonrpc\":\"2.0\",\"method\":\"notifications/initialized\"}");
    let headers: Vec<(String, String)> =
        plan.headers.iter().map(|h| (text(&h.0), text(&h.1))).collect();
    assert_eq!(
        headers,
        vec![
            ("Content-Type".to_string(), "application/json".to_string()),
            ("mcp-session-id".to_string(), "sess-1".to_string()),
        ]
    );
}

#[test]
fn successful_handshake_connects() {
    let url = bytes("http://a");
    let mut client = McpClient::new();
    assert!(matches!(
        client.initialize_mcp_server_begin(&url, 10),
        RegisterOutcome::Registered
    ));
    let outcome = TransportResult::Response(HttpResponse {
        status: 200,
        session_id: Some(bytes("sess-9")),
        body: bytes(handshake_body()),
    });
    let server = interpret_handshake(&url, &outcome, 11).expect("handshake should succeed");
    assert_eq!(text(&server.name), "demo");
    assert_eq!(text(&server.version), "2.3");
    assert_eq!(server.tools.len(), 2);
    assert_eq!(text(&server.tools[0].name), "echo");
    assert_eq!(text(&server.tools[0].description), "repeats");
    assert_eq!(text(&server.tools[1].name), "sum");
    assert_eq!(text(&server.tools[1].description), "");
    assert_eq!(text(&server.tools[1].version), "unknown");
    let report = client.initialize_mcp_server_finish(&url, Ok(server)).expect("success report");
    let v: serde_json::Value = serde_json::from_slice(&report).unwrap();
    assert_eq!(v["status"].as_str(), Some("success"));
    assert_eq!(v["server_info"]["version"].as_str(), Some("2.3"));
    let record = client.registry.get(&url).expect("record should exist");
    assert!(matches!(record.status, ServerStatus::Connected));
    assert_eq!(record.session_id.as_ref().map(|s| text(s)).as_deref(), Some("sess-9"));
    assert_eq!(text(&record.name), "demo");
    assert_eq!(text(&record.version), "2.3");
    assert_eq!(record.tools.len(), 2);
    assert!(!record.name.is_empty());
    assert!(!record.version.is_empty());
}

#[test]
fn failed_handshake_marks_failed_and_keeps_default() {
    let url1 = bytes("http://one");
    let url2 = bytes("http://two");
    let mut client = McpClient::new();
    client.initialize_mcp_server_begin(&url1, 0);
    let good = TransportResult::Response(HttpResponse {
        status: 200,
        session_id: None,
        body: bytes(handshake_body()),
    });
    let server = interpret_handshake(&url1, &good, 1).unwrap();
    client.initialize_mcp_server_finish(&url1, Ok(server)).unwrap();

    client.initialize_mcp_server_begin(&url2, 2);
    let bad = TransportResult::Response(HttpResponse {
        status: 503,
        session_id: None,
        body: bytes("oops"),
    });
    let err = interpret_handshake(&url2, &bad, 3).expect_err("handshake should fail");
    assert!(matches!(err, HandshakeError::HttpStatus(503)));
    let report = client.initialize_mcp_server_finish(&url2, Err(err)).expect_err("error report");
    let v: serde_json::Value = serde_json::from_slice(&report).unwrap();
    assert_eq!(v["status"].as_str(), Some("error"));
    let record = client.registry.get(&url2).expect("record should exist");
    assert!(matches!(record.status, ServerStatus::Failed));
    assert_eq!(
        client.registry.default_server.as_ref().map(|u| text(u)).as_deref(),
        Some("http://one")
    );
}

#[test]
fn missing_result_fails_the_handshake() {
    let url = bytes("http://a");
    let out = TransportResult::Response(HttpResponse {
        status: 200,
        session_id: None,
        body: bytes("{\"jsonrpc\":\"2.0\",\"id\":1}"),
    });
    let err = interpret_handshake(&url, &out, 0).expect_err("no result member");
    assert!(matches!(err, HandshakeError::NoResult));
    assert_eq!(text(&err.message()), "no result in handshake response");
}

#[test]
fn null_result_counts_as_missing() {
    let url = bytes("http://a");
    let out = TransportResult::Response(HttpResponse {
        status: 200,
        session_id: None,
        body: bytes("{\"jsonrpc\":\"2.0\",\"id\":1,\"result\":null}"),
    });
    assert!(matches!(
        interpret_handshake(&url, &out, 0),
        Err(HandshakeError::NoResult)
    ));
}

#[test]
fn unreadable_handshake_body_fails() {
    let url = bytes("http://a");
    let out = TransportResult::Response(HttpResponse {
        status: 200,
        session_id: None,
        body: bytes("<html>"),
    });
    let err = interpret_handshake(&url, &out, 0).expect_err("bad body");
    assert!(matches!(err, HandshakeError::Parse));
    assert_eq!(text(&err.message()), "Failed to parse handshake response");
}

#[test]
fn transport_failure_fails_the_handshake() {
    let url = bytes("http://a");
    let err = interpret_handshake(&url, &TransportResult::Failure, 0).expect_err("no response");
    assert!(matches!(err, HandshakeError::Transport));
    assert_eq!(text(&err.message()), "Failed to connect to server");
}

#[test]
fn http_status_message_names_the_status() {
    let err = HandshakeError::HttpStatus(404);
    assert_eq!(text(&err.message()), "Server returned error response (status 404)");
}

#[test]
fn handshake_defaults_for_missing_server_info() {
    let url = bytes("http://a");
    let out = TransportResult::Response(HttpResponse {
        status: 200,
        session_id: None,
        body: bytes("{\"jsonrpc\":\"2.0\",\"id\":1,\"result\":{}}"),
    });
    let server = interpret_handshake(&url, &out, 0).unwrap();
    assert_eq!(text(&server.name), "Unknown");
    assert_eq!(text(&server.version), "unknown");
    assert!(server.tools.is_empty());
    assert!(server.session_id.is_none());
}

#[test]
fn registration_is_idempotent() {
    let url = bytes("http://a");
    let mut registry = McpServerRegistry::new();
    assert!(matches!(registry.register(&url, 1), RegisterOutcome::Registered));
    registry.commit_handshake_success(&url, bytes("srv"), bytes("9.9"), Vec::new(), None);
    assert!(matches!(registry.register(&url, 2), RegisterOutcome::AlreadyRegistered));
    let record = registry.get(&url).unwrap();
    assert!(matches!(record.status, ServerStatus::Connected));
    assert_eq!(String::from_utf8(record.version.clone()).unwrap(), "9.9");
}

#[test]
fn default_server_is_first_registered_and_immutable() {
    let mut registry = McpServerRegistry::new();
    assert!(registry.default_server.is_none());
    registry.register(&bytes("http://one"), 0);
    assert_eq!(registry.default_server.as_ref().map(|u| text(u)).as_deref(), Some("http://one"));
    registry.register(&bytes("http://two"), 1);
    registry.register(&bytes("http://three"), 2);
    registry.register(&bytes("http://one"), 3);
    registry.commit_handshake_failure(&bytes("http://two"));
    assert_eq!(registry.default_server.as_ref().map(|u| text(u)).as_deref(), Some("http://one"));
}

#[test]
fn fresh_record_fields() {
    let mut registry = McpServerRegistry::new();
    let url = bytes("http://fresh");
    registry.register(&url, 33);
    let record = registry.get(&url).unwrap();
    assert!(matches!(record.status, ServerStatus::Initializing));
    assert_eq!(text(&record.name), "MCP Server at http://fresh");
    assert_eq!(text(&record.version), "unknown");
    assert!(record.tools.is_empty());
    assert_eq!(record.last_health_check, 33);
    assert!(record.session_id.is_none());
}

#[test]
fn unknown_url_lookup_fails() {
    let registry = McpServerRegistry::new();
    assert!(registry.get(&bytes("http://nowhere")).is_none());
}

#[test]
fn built_requests_parse_back() {
    let mut registry = McpServerRegistry::new();
    let url = bytes("http://a");
    registry.register(&url, 0);
    let plans = vec![
        handshake_request(1),
        mcp_client::dispatch::check_mcp_server_request(2),
        mcp_client::dispatch::query_tools_request(&registry, &url, 3),
        mcp_client::dispatch::list_tools_request(&registry, &url, 4),
        mcp_client::dispatch::call_tool_request(
            &registry,
            &url,
            &bytes("na\"me"),
            mcp_client::json::Json::Null,
            6,
        ),
        initialized_notification(&bytes("s")),
    ];
    for plan in &plans {
        assert!(mcp_client::json::parse_json(&plan.body).is_some());
    }
}

#[test]
fn already_registered_skips_nothing_but_reports_the_record() {
    let url = bytes("http://a");
    let mut client = McpClient::new();
    assert!(client.already_registered_report(&url).is_none());
    client.initialize_mcp_server_begin(&url, 7);
    let good = TransportResult::Response(HttpResponse {
        status: 200,
        session_id: None,
        body: bytes(handshake_body()),
    });
    let server = interpret_handshake(&url, &good, 8).unwrap();
    client.initialize_mcp_server_finish(&url, Ok(server)).unwrap();
    assert!(matches!(
        client.initialize_mcp_server_begin(&url, 9),
        RegisterOutcome::AlreadyRegistered
    ));
    let report = client.already_registered_report(&url).expect("record is registered");
    let v: serde_json::Value = serde_json::from_slice(&report).unwrap();
    assert_eq!(v["status"].as_str(), Some("already_registered"));
    assert_eq!(v["server_info"]["name"].as_str(), Some("demo"));
    assert_eq!(v["server_info"]["version"].as_str(), Some("2.3"));
    assert_eq!(v["server_info"]["status"].as_str(), Some("connected"));
    let record = client.registry.get(&url).unwrap();
    assert!(matches!(record.status, ServerStatus::Connected));
}
