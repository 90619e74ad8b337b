//! The method dispatcher: message handling, the server health check,
//! and the tool operations.
use mcp_client::dispatch::{
    handle_message, health_check_reply, check_mcp_server_request, check_mcp_server_result,
    check_mcp_server_detail, query_tools_request, query_tools_result, list_tools_request,
    list_tools_result, call_tool_request, call_tool_result, MessageAction, ListToolsError,
    CallToolError, CheckServerError,
};
use mcp_client::transport::{TransportResult, HttpResponse};
use mcp_client::registry::McpServerRegistry;
use mcp_client::json::Json;

fn bytes(s: &str) -> Vec<u8> {
    s.as_bytes().to_vec()
}

fn text(v: &[u8]) -> String {
    String::from_utf8(v.to_vec()).unwrap()
}

fn response(status: u16, body: &str) -> TransportResult {
    TransportResult::Response(HttpResponse { status, session_id: None, body: bytes(body) })
}

fn header_value(headers: &[(Vec<u8>, Vec<u8>)], name: &str) -> Option<String> {
    headers.iter().find(|h| h.0 == name.as_bytes()).map(|h| text(&h.1))
}

#[test]
fn parse_error_reply() {
    match handle_message(&bytes("not json"), 5) {
        MessageAction::Reply(b) => {
            assert_eq!(
                text(&b),
                "{\"jsonrpc\":\"2.0\",\"id\":null,\"error\":{\"code\":-32700,\
                 \"message\":\"Failed to parse request: invalid JSON\"},\
                 \"logs\":[{\"level\":\"ERROR\",\"message\":\"Failed to parse request: \
                 invalid JSON\",\"timestamp\":5}]}"
            );
        },
        _ => panic!("expected an immediate reply"),
    }
}

#[test]
fn parse_error_code_is_32700() {
    match handle_message(&bytes("not json"), 0) {
        MessageAction::Reply(b) => {
            let v: serde_json::Value = serde_json::from_slice(&b).unwrap();
            assert_eq!(v["error"]["code"].as_i64(), Some(-32700));
            assert!(v["id"].is_null());
        },
        _ => panic!("expected an immediate reply"),
    }
}

#[test]
fn missing_method_is_a_parse_error() {
    match handle_message(&bytes("{\"jsonrpc\":\"2.0\",\"id\":1}"), 0) {
        MessageAction::Reply(b) => {
            let v: serde_json::Value = serde_json::from_slice(&b).unwrap();
            assert_eq!(v["error"]["code"].as_i64(), Some(-32700));
        },
        _ => panic!("expected an immediate reply"),
    }
}

#[test]
fn string_id_is_a_parse_error() {
    match handle_message(&bytes("{\"jsonrpc\":\"2.0\",\"method\":\"health_check\",\"id\":\"x\"}"), 0) {
        MessageAction::Reply(b) => {
            let v: serde_json::Value = serde_json::from_slice(&b).unwrap();
            assert_eq!(v["error"]["code"].as_i64(), Some(-32700));
        },
        _ => panic!("expected an immediate reply"),
    }
}

#[test]
fn huge_id_is_a_parse_error() {
    let msg = "{\"jsonrpc\":\"2.0\",\"method\":\"health_check\",\"id\":18446744073709551616}";
    assert!(matches!(handle_message(&bytes(msg), 0), MessageAction::Reply(_)));
}

#[test]
fn largest_id_is_accepted() {
    let msg = "{\"jsonrpc\":\"2.0\",\"method\":\"health_check\",\"id\":18446744073709551615}";
    match handle_message(&bytes(msg), 0) {
        MessageAction::CheckServer { id } => assert_eq!(id, Some(u64::MAX)),
        _ => panic!("expected a health check"),
    }
}

#[test]
fn unknown_method_reply() {
    match handle_message(&bytes("{\"jsonrpc\":\"2.0\",\"method\":\"foo\",\"id\":2}"), 9) {
        MessageAction::Reply(b) => {
            assert_eq!(
                text(&b),
                "{\"jsonrpc\":\"2.0\",\"id\":2,\"error\":{\"code\":-32601,\
                 \"message\":\"Unknown method: foo\"},\
                 \"logs\":[{\"level\":\"ERROR\",\"message\":\"Unknown method: foo\",\
                 \"timestamp\":9}]}"
            );
        },
        _ => panic!("expected an immediate reply"),
    }
}

#[test]
fn health_check_method_defers_to_server_check() {
    match handle_message(&bytes("{\"jsonrpc\":\"2.0\",\"method\":\"health_check\",\"id\":1}"), 0) {
        MessageAction::CheckServer { id } => assert_eq!(id, Some(1)),
        _ => panic!("expected a health check"),
    }
}

#[test]
fn null_id_counts_as_absent() {
    match handle_message(
        &bytes("{\"jsonrpc\":\"2.0\",\"method\":\"health_check\",\"id\":null}"),
        0,
    ) {
        MessageAction::CheckServer { id } => assert_eq!(id, None),
        _ => panic!("expected a health check"),
    }
}

#[test]
fn healthy_reply_envelope() {
    let b = health_check_reply(Some(1), true, 42, 3, 4);
    assert_eq!(
        text(&b),
        "{\"jsonrpc\":\"2.0\",\"id\":1,\"result\":{\"status\":\"healthy\",\"uptime\":42,\
         \"version\":\"0.1.0\"},\"logs\":[{\"level\":\"INFO\",\"message\":\"Processing MCP \
         server health check request\",\"timestamp\":3},{\"level\":\"INFO\",\"message\":\"MCP \
         server health check response: healthy\",\"timestamp\":4}]}"
    );
}

#[test]
fn unhealthy_reply_envelope() {
    let b = health_check_reply(None, false, 0, 0, 0);
    let v: serde_json::Value = serde_json::from_slice(&b).unwrap();
    assert_eq!(v["result"]["status"].as_str(), Some("unhealthy"));
    assert!(v["id"].is_null());
}

#[test]
fn health_check_request_shape() {
    let plan = check_mcp_server_request(77);
    assert_eq!(
        text(&plan.body),
        "{\"jsonrpc\":\"2.0\",\"method\":\"health_check\",\"params\":{},\"id\":77}"
    );
    assert_eq!(header_value(&plan.headers, "Content-Type").as_deref(), Some("application/json"));
    assert_eq!(header_value(&plan.headers, "Accept").as_deref(), Some("application/json"));
}

#[test]
fn healthy_server_reports_zero() {
    let out = response(200, "{\"jsonrpc\":\"2.0\",\"id\":1,\"result\":{\"status\":\"healthy\"}}");
    assert_eq!(check_mcp_server_result(&out), 0);
}

#[test]
fn health_status_is_case_insensitive() {
    let out = response(200, "{\"jsonrpc\":\"2.0\",\"id\":1,\"result\":{\"status\":\"HEALTHY\"}}");
    assert_eq!(check_mcp_server_result(&out), 0);
}

#[test]
fn other_status_word_fails() {
    let out = response(200, "{\"jsonrpc\":\"2.0\",\"id\":1,\"result\":{\"status\":\"degraded\"}}");
    assert_eq!(check_mcp_server_result(&out), 1);
}

#[test]
fn error_member_fails_health_check() {
    let out = response(
        200,
        "{\"jsonrpc\":\"2.0\",\"id\":1,\"result\":{\"status\":\"healthy\"},\
         \"error\":{\"code\":1,\"message\":\"m\"}}",
    );
    assert_eq!(check_mcp_server_result(&out), 1);
}

#[test]
fn non_success_status_fails_health_check() {
    let out = response(500, "{\"jsonrpc\":\"2.0\",\"id\":1,\"result\":{\"status\":\"healthy\"}}");
    assert_eq!(check_mcp_server_result(&out), 1);
}

#[test]
fn transport_failure_fails_health_check() {
    assert_eq!(check_mcp_server_result(&TransportResult::Failure), 1);
}

#[test]
fn unreadable_body_fails_health_check() {
    assert_eq!(check_mcp_server_result(&response(200, "eh")), 1);
}

#[test]
fn missing_result_fails_health_check() {
    assert_eq!(check_mcp_server_result(&response(200, "{\"jsonrpc\":\"2.0\",\"id\":1}")), 1);
}

#[test]
fn query_tools_request_shape() {
    let mut registry = McpServerRegistry::new();
    let url = bytes("http://a");
    let plan = query_tools_request(&registry, &url, 5);
    assert_eq!(
        text(&plan.body),
        "{\"jsonrpc\":\"2.0\",\"method\":\"tools/list\",\"params\":{},\"id\":5}"
    );
    assert_eq!(header_value(&plan.headers, "mcp-session-id"), None);
    registry.register(&url, 0);
    registry.commit_handshake_success(&url, bytes("srv"), bytes("1.0"), Vec::new(), Some(bytes("q-sess")));
    let plan = query_tools_request(&registry, &url, 5);
    assert_eq!(header_value(&plan.headers, "mcp-session-id").as_deref(), Some("q-sess"));
}

#[test]
fn query_tools_wraps_result_or_error() {
    let out = response(
        200,
        "{\"jsonrpc\":\"2.0\",\"id\":1,\"result\":{\"tools\":[{\"name\":\"t\"}]}}",
    );
    assert_eq!(
        text(&query_tools_result(&out).unwrap()),
        "{\"result\":{\"tools\":[{\"name\":\"t\"}]}}"
    );
    let out = response(
        200,
        "{\"jsonrpc\":\"2.0\",\"id\":1,\"error\":{\"code\":3,\"message\":\"no\"}}",
    );
    assert_eq!(
        text(&query_tools_result(&out).unwrap()),
        "{\"error\":{\"code\":3,\"message\":\"no\",\"data\":null}}"
    );
}

#[test]
fn query_tools_error_texts() {
    let neither = response(200, "{\"jsonrpc\":\"2.0\",\"id\":1}");
    match query_tools_result(&neither) {
        Err(e) => {
            assert!(matches!(e, ListToolsError::NoResultOrError));
            assert_eq!(text(&e.message()), "No result or error in response");
        },
        Ok(_) => panic!("expected an error"),
    }
    match query_tools_result(&response(502, "{}")) {
        Err(e) => assert_eq!(text(&e.message()), "Server returned error response"),
        Ok(_) => panic!("expected an error"),
    }
    match query_tools_result(&response(200, "nope")) {
        Err(e) => assert_eq!(text(&e.message()), "Failed to parse tools response"),
        Ok(_) => panic!("expected an error"),
    }
    match query_tools_result(&TransportResult::Failure) {
        Err(e) => {
            assert!(matches!(e, ListToolsError::Transport));
            assert_eq!(text(&e.message()), "Failed to connect to server");
        },
        Ok(_) => panic!("expected an error"),
    }
}

#[test]
fn list_tools_wraps_result() {
    let out = response(200, "{\"jsonrpc\":\"2.0\",\"id\":1,\"result\":{\"tools\":[]}}");
    assert_eq!(text(&list_tools_result(&out).unwrap()), "{\"result\":{\"tools\":[]}}");
}

#[test]
fn list_tools_wraps_error() {
    let out = response(
        200,
        "{\"jsonrpc\":\"2.0\",\"id\":1,\"error\":{\"code\":-5,\"message\":\"bad\"}}",
    );
    assert_eq!(
        text(&list_tools_result(&out).unwrap()),
        "{\"error\":{\"code\":-5,\"message\":\"bad\",\"data\":null}}"
    );
}

#[test]
fn list_tools_neither_member() {
    match list_tools_result(&response(200, "{\"jsonrpc\":\"2.0\",\"id\":1}")) {
        Err(e) => {
            assert!(matches!(e, ListToolsError::NoResultOrError));
            assert_eq!(text(&e.message()), "No result or error in response");
        },
        Ok(_) => panic!("expected an error"),
    }
}

#[test]
fn list_tools_request_carries_session_iff_known() {
    let mut registry = McpServerRegistry::new();
    let url = bytes("http://a");
    registry.register(&url, 0);
    let plan = list_tools_request(&registry, &url, 1);
    assert_eq!(header_value(&plan.headers, "mcp-session-id"), None);
    registry.commit_handshake_success(&url, bytes("srv"), bytes("1.0"), Vec::new(), Some(bytes("sess-7")));
    let plan = list_tools_request(&registry, &url, 1);
    assert_eq!(header_value(&plan.headers, "mcp-session-id").as_deref(), Some("sess-7"));
    assert_eq!(
        text(&plan.body),
        "{\"jsonrpc\":\"2.0\",\"method\":\"tools/list\",\"params\":{},\"id\":1}"
    );
}

#[test]
fn call_tool_request_carries_session_iff_known() {
    let mut registry = McpServerRegistry::new();
    let url = bytes("http://a");
    let other = bytes("http://b");
    registry.register(&url, 0);
    registry.commit_handshake_success(&url, bytes("srv"), bytes("1.0"), Vec::new(), Some(bytes("s1")));
    let plan = call_tool_request(&registry, &url, &bytes("echo"), Json::Null, 3);
    assert_eq!(header_value(&plan.headers, "mcp-session-id").as_deref(), Some("s1"));
    assert_eq!(
        text(&plan.body),
        "{\"jsonrpc\":\"2.0\",\"method\":\"tools/call\",\"params\":{\"name\":\"echo\",\
         \"arguments\":null},\"id\":3}"
    );
    let plan = call_tool_request(&registry, &other, &bytes("echo"), Json::Null, 3);
    assert_eq!(header_value(&plan.headers, "mcp-session-id"), None);
}

#[test]
fn call_tool_returns_result_verbatim() {
    let out = response(200, "{\"jsonrpc\":\"2.0\",\"id\":1,\"result\":{\"out\":[1,2]}}");
    assert_eq!(text(&call_tool_result(&out).unwrap()), "{\"out\":[1,2]}");
}

#[test]
fn call_tool_missing_result_is_null() {
    let out = response(200, "{\"jsonrpc\":\"2.0\",\"id\":1}");
    assert_eq!(text(&call_tool_result(&out).unwrap()), "null");
}

#[test]
fn call_tool_error_texts() {
    match call_tool_result(&response(200, "x")) {
        Err(e) => {
            assert!(matches!(e, CallToolError::Parse));
            assert_eq!(text(&e.message()), "Failed to parse response");
        },
        Ok(_) => panic!("expected an error"),
    }
    match call_tool_result(&response(404, "{}")) {
        Err(e) => assert!(matches!(e, CallToolError::Http)),
        Ok(_) => panic!("expected an error"),
    }
    match call_tool_result(&TransportResult::Failure) {
        Err(e) => assert!(matches!(e, CallToolError::Transport)),
        Ok(_) => panic!("expected an error"),
    }
}

#[test]
fn error_code_boundaries() {
    let out = response(
        200,
        "{\"jsonrpc\":\"2.0\",\"id\":1,\"error\":{\"code\":-2147483648,\"message\":\"m\"}}",
    );
    assert_eq!(
        text(&list_tools_result(&out).unwrap()),
        "{\"error\":{\"code\":-2147483648,\"message\":\"m\",\"data\":null}}"
    );
    let out = response(
        200,
        "{\"jsonrpc\":\"2.0\",\"id\":1,\"error\":{\"code\":2147483648,\"message\":\"m\"}}",
    );
    assert!(matches!(list_tools_result(&out), Err(ListToolsError::Parse)));
}

#[test]
fn error_data_is_carried() {
    let out = response(
        200,
        "{\"jsonrpc\":\"2.0\",\"id\":1,\"error\":{\"code\":7,\"message\":\"m\",\"data\":[1,2]}}",
    );
    assert_eq!(
        text(&list_tools_result(&out).unwrap()),
        "{\"error\":{\"code\":7,\"message\":\"m\",\"data\":[1,2]}}"
    );
}

#[test]
fn call_tool_surfaces_rpc_error() {
    let out = response(
        200,
        "{\"jsonrpc\":\"2.0\",\"id\":1,\"error\":{\"code\":-7,\"message\":\"bad tool\"}}",
    );
    match call_tool_result(&out) {
        Err(CallToolError::Rpc { code, message }) => {
            assert_eq!(code, -7);
            assert_eq!(text(&message), "bad tool");
        },
        _ => panic!("expected the surfaced error"),
    }
    match call_tool_result(&out) {
        Err(e) => assert_eq!(text(&e.message()), "MCP server returned error: bad tool (code: -7)"),
        Ok(_) => panic!("expected an error"),
    }
}

#[test]
fn check_detail_preserves_the_cause() {
    match check_mcp_server_detail(&TransportResult::Failure) {
        Err(e) => {
            assert!(matches!(e, CheckServerError::Transport));
            assert_eq!(text(&e.message()), "Failed to connect to MCP server");
        },
        Ok(_) => panic!("expected an error"),
    }
    match check_mcp_server_detail(&response(503, "{}")) {
        Err(e) => {
            assert!(matches!(e, CheckServerError::Http(503)));
            assert_eq!(
                text(&e.message()),
                "MCP server health check failed - received error response"
            );
        },
        Ok(_) => panic!("expected an error"),
    }
    match check_mcp_server_detail(&response(200, "eh")) {
        Err(e) => {
            assert!(matches!(e, CheckServerError::Parse));
            assert_eq!(text(&e.message()), "Failed to parse MCP server response as JSON-RPC");
        },
        Ok(_) => panic!("expected an error"),
    }
    let rpc = response(
        200,
        "{\"jsonrpc\":\"2.0\",\"id\":1,\"error\":{\"code\":9,\"message\":\"down\"}}",
    );
    match check_mcp_server_detail(&rpc) {
        Err(e) => {
            assert!(matches!(e, CheckServerError::Rpc { .. }));
            assert_eq!(text(&e.message()), "MCP server returned error: down (code: 9)");
        },
        Ok(_) => panic!("expected an error"),
    }
    let no_status = response(200, "{\"jsonrpc\":\"2.0\",\"id\":1,\"result\":{}}");
    match check_mcp_server_detail(&no_status) {
        Err(e) => assert!(matches!(e, CheckServerError::Protocol)),
        Ok(_) => panic!("expected an error"),
    }
    let degraded = response(
        200,
        "{\"jsonrpc\":\"2.0\",\"id\":1,\"result\":{\"status\":\"degraded\"}}",
    );
    match check_mcp_server_detail(&degraded) {
        Err(e) => {
            assert!(matches!(e, CheckServerError::Unhealthy(_)));
            assert_eq!(
                text(&e.message()),
                "MCP server health check failed - server reported status: degraded"
            );
        },
        Ok(_) => panic!("expected an error"),
    }
    let healthy = response(
        200,
        "{\"jsonrpc\":\"2.0\",\"id\":1,\"result\":{\"status\":\"healthy\"}}",
    );
    assert!(check_mcp_server_detail(&healthy).is_ok());
}
