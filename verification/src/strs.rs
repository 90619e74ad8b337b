//! The literal texts of the protocol: JSON keys, method names, header
//! names, status words and diagnostic messages, each as a spec sequence
//! with an executable twin that builds the same bytes.
use vstd::prelude::*;

verus! {

/// "jsonrpc"
pub open spec fn k_jsonrpc() -> Seq<u8> {
    seq![106u8, 115, 111, 110, 114, 112, 99]
}

/// Executable twin of [`k_jsonrpc`].
pub fn b_jsonrpc() -> (r: Vec<u8>)
    ensures
        r@ == k_jsonrpc(),
{
    let r: Vec<u8> = vec![106u8, 115, 111, 110, 114, 112, 99];
    proof {
        assert(r@ =~= k_jsonrpc());
    }
    r
}

/// "2.0"
pub open spec fn k_two_zero() -> Seq<u8> {
    seq![50u8, 46, 48]
}

/// Executable twin of [`k_two_zero`].
pub fn b_two_zero() -> (r: Vec<u8>)
    ensures
        r@ == k_two_zero(),
{
    let r: Vec<u8> = vec![50u8, 46, 48];
    proof {
        assert(r@ =~= k_two_zero());
    }
    r
}

/// "method"
pub open spec fn k_method() -> Seq<u8> {
    seq![109u8, 101, 116, 104, 111, 100]
}

/// Executable twin of [`k_method`].
pub fn b_method() -> (r: Vec<u8>)
    ensures
        r@ == k_method(),
{
    let r: Vec<u8> = vec![109u8, 101, 116, 104, 111, 100];
    proof {
        assert(r@ =~= k_method());
    }
    r
}

/// "params"
pub open spec fn k_params() -> Seq<u8> {
    seq![112u8, 97, 114, 97, 109, 115]
}

/// Executable twin of [`k_params`].
pub fn b_params() -> (r: Vec<u8>)
    ensures
        r@ == k_params(),
{
    let r: Vec<u8> = vec![112u8, 97, 114, 97, 109, 115];
    proof {
        assert(r@ =~= k_params());
    }
    r
}

/// "id"
pub open spec fn k_id() -> Seq<u8> {
    seq![105u8, 100]
}

/// Executable twin of [`k_id`].
pub fn b_id() -> (r: Vec<u8>)
    ensures
        r@ == k_id(),
{
    let r: Vec<u8> = vec![105u8, 100];
    proof {
        assert(r@ =~= k_id());
    }
    r
}

/// "result"
pub open spec fn k_result() -> Seq<u8> {
    seq![114u8, 101, 115, 117, 108, 116]
}

/// Executable twin of [`k_result`].
pub fn b_result() -> (r: Vec<u8>)
    ensures
        r@ == k_result(),
{
    let r: Vec<u8> = vec![114u8, 101, 115, 117, 108, 116];
    proof {
        assert(r@ =~= k_result());
    }
    r
}

/// "error"
pub open spec fn k_error() -> Seq<u8> {
    seq![101u8, 114, 114, 111, 114]
}

/// Executable twin of [`k_error`].
pub fn b_error() -> (r: Vec<u8>)
    ensures
        r@ == k_error(),
{
    let r: Vec<u8> = vec![101u8, 114, 114, 111, 114];
    proof {
        assert(r@ =~= k_error());
    }
    r
}

/// "code"
pub open spec fn k_code() -> Seq<u8> {
    seq![99u8, 111, 100, 101]
}

/// Executable twin of [`k_code`].
pub fn b_code() -> (r: Vec<u8>)
    ensures
        r@ == k_code(),
{
    let r: Vec<u8> = vec![99u8, 111, 100, 101];
    proof {
        assert(r@ =~= k_code());
    }
    r
}

/// "message"
pub open spec fn k_message() -> Seq<u8> {
    seq![109u8, 101, 115, 115, 97, 103, 101]
}

/// Executable twin of [`k_message`].
pub fn b_message() -> (r: Vec<u8>)
    ensures
        r@ == k_message(),
{
    let r: Vec<u8> = vec![109u8, 101, 115, 115, 97, 103, 101];
    proof {
        assert(r@ =~= k_message());
    }
    r
}

/// "data"
pub open spec fn k_data() -> Seq<u8> {
    seq![100u8, 97, 116, 97]
}

/// Executable twin of [`k_data`].
pub fn b_data() -> (r: Vec<u8>)
    ensures
        r@ == k_data(),
{
    let r: Vec<u8> = vec![100u8, 97, 116, 97];
    proof {
        assert(r@ =~= k_data());
    }
    r
}

/// "status"
pub open spec fn k_status() -> Seq<u8> {
    seq![115u8, 116, 97, 116, 117, 115]
}

/// Executable twin of [`k_status`].
pub fn b_status() -> (r: Vec<u8>)
    ensures
        r@ == k_status(),
{
    let r: Vec<u8> = vec![115u8, 116, 97, 116, 117, 115];
    proof {
        assert(r@ =~= k_status());
    }
    r
}

/// "healthy"
pub open spec fn k_healthy() -> Seq<u8> {
    seq![104u8, 101, 97, 108, 116, 104, 121]
}

/// Executable twin of [`k_healthy`].
pub fn b_healthy() -> (r: Vec<u8>)
    ensures
        r@ == k_healthy(),
{
    let r: Vec<u8> = vec![104u8, 101, 97, 108, 116, 104, 121];
    proof {
        assert(r@ =~= k_healthy());
    }
    r
}

/// "unhealthy"
pub open spec fn k_unhealthy() -> Seq<u8> {
    seq![117u8, 110, 104, 101, 97, 108, 116, 104, 121]
}

/// Executable twin of [`k_unhealthy`].
pub fn b_unhealthy() -> (r: Vec<u8>)
    ensures
        r@ == k_unhealthy(),
{
    let r: Vec<u8> = vec![117u8, 110, 104, 101, 97, 108, 116, 104, 121];
    proof {
        assert(r@ =~= k_unhealthy());
    }
    r
}

/// "uptime"
pub open spec fn k_uptime() -> Seq<u8> {
    seq![117u8, 112, 116, 105, 109, 101]
}

/// Executable twin of [`k_uptime`].
pub fn b_uptime() -> (r: Vec<u8>)
    ensures
        r@ == k_uptime(),
{
    let r: Vec<u8> = vec![117u8, 112, 116, 105, 109, 101];
    proof {
        assert(r@ =~= k_uptime());
    }
    r
}

/// "version"
pub open spec fn k_version() -> Seq<u8> {
    seq![118u8, 101, 114, 115, 105, 111, 110]
}

/// Executable twin of [`k_version`].
pub fn b_version() -> (r: Vec<u8>)
    ensures
        r@ == k_version(),
{
    let r: Vec<u8> = vec![118u8, 101, 114, 115, 105, 111, 110];
    proof {
        assert(r@ =~= k_version());
    }
    r
}

/// "logs"
pub open spec fn k_logs() -> Seq<u8> {
    seq![108u8, 111, 103, 115]
}

/// Executable twin of [`k_logs`].
pub fn b_logs() -> (r: Vec<u8>)
    ensures
        r@ == k_logs(),
{
    let r: Vec<u8> = vec![108u8, 111, 103, 115];
    proof {
        assert(r@ =~= k_logs());
    }
    r
}

/// "level"
pub open spec fn k_level() -> Seq<u8> {
    seq![108u8, 101, 118, 101, 108]
}

/// Executable twin of [`k_level`].
pub fn b_level() -> (r: Vec<u8>)
    ensures
        r@ == k_level(),
{
    let r: Vec<u8> = vec![108u8, 101, 118, 101, 108];
    proof {
        assert(r@ =~= k_level());
    }
    r
}

/// "timestamp"
pub open spec fn k_timestamp() -> Seq<u8> {
    seq![116u8, 105, 109, 101, 115, 116, 97, 109, 112]
}

/// Executable twin of [`k_timestamp`].
pub fn b_timestamp() -> (r: Vec<u8>)
    ensures
        r@ == k_timestamp(),
{
    let r: Vec<u8> = vec![116u8, 105, 109, 101, 115, 116, 97, 109, 112];
    proof {
        assert(r@ =~= k_timestamp());
    }
    r
}

/// "INFO"
pub open spec fn k_lvl_info() -> Seq<u8> {
    seq![73u8, 78, 70, 79]
}

/// Executable twin of [`k_lvl_info`].
pub fn b_lvl_info() -> (r: Vec<u8>)
    ensures
        r@ == k_lvl_info(),
{
    let r: Vec<u8> = vec![73u8, 78, 70, 79];
    proof {
        assert(r@ =~= k_lvl_info());
    }
    r
}

/// "ERROR"
pub open spec fn k_lvl_error() -> Seq<u8> {
    seq![69u8, 82, 82, 79, 82]
}

/// Executable twin of [`k_lvl_error`].
pub fn b_lvl_error() -> (r: Vec<u8>)
    ensures
        r@ == k_lvl_error(),
{
    let r: Vec<u8> = vec![69u8, 82, 82, 79, 82];
    proof {
        assert(r@ =~= k_lvl_error());
    }
    r
}

/// "health_check"
pub open spec fn k_health_check() -> Seq<u8> {
    seq![104u8, 101, 97, 108, 116, 104, 95, 99, 104, 101, 99, 107]
}

/// Executable twin of [`k_health_check`].
pub fn b_health_check() -> (r: Vec<u8>)
    ensures
        r@ == k_health_check(),
{
    let r: Vec<u8> = vec![104u8, 101, 97, 108, 116, 104, 95, 99, 104, 101, 99, 107];
    proof {
        assert(r@ =~= k_health_check());
    }
    r
}

/// "initialize"
pub open spec fn k_initialize() -> Seq<u8> {
    seq![105u8, 110, 105, 116, 105, 97, 108, 105, 122, 101]
}

/// Executable twin of [`k_initialize`].
pub fn b_initialize() -> (r: Vec<u8>)
    ensures
        r@ == k_initialize(),
{
    let r: Vec<u8> = vec![105u8, 110, 105, 116, 105, 97, 108, 105, 122, 101];
    proof {
        assert(r@ =~= k_initialize());
    }
    r
}

/// "tools/list"
pub open spec fn k_tools_list() -> Seq<u8> {
    seq![116u8, 111, 111, 108, 115, 47, 108, 105, 115, 116]
}

/// Executable twin of [`k_tools_list`].
pub fn b_tools_list() -> (r: Vec<u8>)
    ensures
        r@ == k_tools_list(),
{
    let r: Vec<u8> = vec![116u8, 111, 111, 108, 115, 47, 108, 105, 115, 116];
    proof {
        assert(r@ =~= k_tools_list());
    }
    r
}

/// "tools/call"
pub open spec fn k_tools_call() -> Seq<u8> {
    seq![116u8, 111, 111, 108, 115, 47, 99, 97, 108, 108]
}

/// Executable twin of [`k_tools_call`].
pub fn b_tools_call() -> (r: Vec<u8>)
    ensures
        r@ == k_tools_call(),
{
    let r: Vec<u8> = vec![116u8, 111, 111, 108, 115, 47, 99, 97, 108, 108];
    proof {
        assert(r@ =~= k_tools_call());
    }
    r
}

/// "notifications/initialized"
pub open spec fn k_notifications_initialized() -> Seq<u8> {
    seq![110u8, 111, 116, 105, 102, 105, 99, 97, 116, 105, 111, 110, 115, 47, 105, 110, 105, 116, 105, 97, 108, 105, 122, 101, 100]
}

/// Executable twin of [`k_notifications_initialized`].
pub fn b_notifications_initialized() -> (r: Vec<u8>)
    ensures
        r@ == k_notifications_initialized(),
{
    let r: Vec<u8> = vec![110u8, 111, 116, 105, 102, 105, 99, 97, 116, 105, 111, 110, 115, 47, 105, 110, 105, 116, 105, 97, 108, 105, 122, 101, 100];
    proof {
        assert(r@ =~= k_notifications_initialized());
    }
    r
}

/// "protocolVersion"
pub open spec fn k_protocol_version_key() -> Seq<u8> {
    seq![112u8, 114, 111, 116, 111, 99, 111, 108, 86, 101, 114, 115, 105, 111, 110]
}

/// Executable twin of [`k_protocol_version_key`].
pub fn b_protocol_version_key() -> (r: Vec<u8>)
    ensures
        r@ == k_protocol_version_key(),
{
    let r: Vec<u8> = vec![112u8, 114, 111, 116, 111, 99, 111, 108, 86, 101, 114, 115, 105, 111, 110];
    proof {
        assert(r@ =~= k_protocol_version_key());
    }
    r
}

/// "2025-03-26"
pub open spec fn k_protocol_version() -> Seq<u8> {
    seq![50u8, 48, 50, 53, 45, 48, 51, 45, 50, 54]
}

/// Executable twin of [`k_protocol_version`].
pub fn b_protocol_version() -> (r: Vec<u8>)
    ensures
        r@ == k_protocol_version(),
{
    let r: Vec<u8> = vec![50u8, 48, 50, 53, 45, 48, 51, 45, 50, 54];
    proof {
        assert(r@ =~= k_protocol_version());
    }
    r
}

/// "capabilities"
pub open spec fn k_capabilities() -> Seq<u8> {
    seq![99u8, 97, 112, 97, 98, 105, 108, 105, 116, 105, 101, 115]
}

/// Executable twin of [`k_capabilities`].
pub fn b_capabilities() -> (r: Vec<u8>)
    ensures
        r@ == k_capabilities(),
{
    let r: Vec<u8> = vec![99u8, 97, 112, 97, 98, 105, 108, 105, 116, 105, 101, 115];
    proof {
        assert(r@ =~= k_capabilities());
    }
    r
}

/// "clientInfo"
pub open spec fn k_client_info() -> Seq<u8> {
    seq![99u8, 108, 105, 101, 110, 116, 73, 110, 102, 111]
}

/// Executable twin of [`k_client_info`].
pub fn b_client_info() -> (r: Vec<u8>)
    ensures
        r@ == k_client_info(),
{
    let r: Vec<u8> = vec![99u8, 108, 105, 101, 110, 116, 73, 110, 102, 111];
    proof {
        assert(r@ =~= k_client_info());
    }
    r
}

/// "name"
pub open spec fn k_name() -> Seq<u8> {
    seq![110u8, 97, 109, 101]
}

/// Executable twin of [`k_name`].
pub fn b_name() -> (r: Vec<u8>)
    ensures
        r@ == k_name(),
{
    let r: Vec<u8> = vec![110u8, 97, 109, 101];
    proof {
        assert(r@ =~= k_name());
    }
    r
}

/// "sampling"
pub open spec fn k_sampling() -> Seq<u8> {
    seq![115u8, 97, 109, 112, 108, 105, 110, 103]
}

/// Executable twin of [`k_sampling`].
pub fn b_sampling() -> (r: Vec<u8>)
    ensures
        r@ == k_sampling(),
{
    let r: Vec<u8> = vec![115u8, 97, 109, 112, 108, 105, 110, 103];
    proof {
        assert(r@ =~= k_sampling());
    }
    r
}

/// "roots"
pub open spec fn k_roots() -> Seq<u8> {
    seq![114u8, 111, 111, 116, 115]
}

/// Executable twin of [`k_roots`].
pub fn b_roots() -> (r: Vec<u8>)
    ensures
        r@ == k_roots(),
{
    let r: Vec<u8> = vec![114u8, 111, 111, 116, 115];
    proof {
        assert(r@ =~= k_roots());
    }
    r
}

/// "serverInfo"
pub open spec fn k_server_info() -> Seq<u8> {
    seq![115u8, 101, 114, 118, 101, 114, 73, 110, 102, 111]
}

/// Executable twin of [`k_server_info`].
pub fn b_server_info() -> (r: Vec<u8>)
    ensures
        r@ == k_server_info(),
{
    let r: Vec<u8> = vec![115u8, 101, 114, 118, 101, 114, 73, 110, 102, 111];
    proof {
        assert(r@ =~= k_server_info());
    }
    r
}

/// "tools"
pub open spec fn k_tools() -> Seq<u8> {
    seq![116u8, 111, 111, 108, 115]
}

/// Executable twin of [`k_tools`].
pub fn b_tools() -> (r: Vec<u8>)
    ensures
        r@ == k_tools(),
{
    let r: Vec<u8> = vec![116u8, 111, 111, 108, 115];
    proof {
        assert(r@ =~= k_tools());
    }
    r
}

/// "description"
pub open spec fn k_description() -> Seq<u8> {
    seq![100u8, 101, 115, 99, 114, 105, 112, 116, 105, 111, 110]
}

/// Executable twin of [`k_description`].
pub fn b_description() -> (r: Vec<u8>)
    ensures
        r@ == k_description(),
{
    let r: Vec<u8> = vec![100u8, 101, 115, 99, 114, 105, 112, 116, 105, 111, 110];
    proof {
        assert(r@ =~= k_description());
    }
    r
}

/// "arguments"
pub open spec fn k_arguments() -> Seq<u8> {
    seq![97u8, 114, 103, 117, 109, 101, 110, 116, 115]
}

/// Executable twin of [`k_arguments`].
pub fn b_arguments() -> (r: Vec<u8>)
    ensures
        r@ == k_arguments(),
{
    let r: Vec<u8> = vec![97u8, 114, 103, 117, 109, 101, 110, 116, 115];
    proof {
        assert(r@ =~= k_arguments());
    }
    r
}

/// "Unknown"
pub open spec fn k_unknown_cap() -> Seq<u8> {
    seq![85u8, 110, 107, 110, 111, 119, 110]
}

/// Executable twin of [`k_unknown_cap`].
pub fn b_unknown_cap() -> (r: Vec<u8>)
    ensures
        r@ == k_unknown_cap(),
{
    let r: Vec<u8> = vec![85u8, 110, 107, 110, 111, 119, 110];
    proof {
        assert(r@ =~= k_unknown_cap());
    }
    r
}

/// "unknown"
pub open spec fn k_unknown_lc() -> Seq<u8> {
    seq![117u8, 110, 107, 110, 111, 119, 110]
}

/// Executable twin of [`k_unknown_lc`].
pub fn b_unknown_lc() -> (r: Vec<u8>)
    ensures
        r@ == k_unknown_lc(),
{
    let r: Vec<u8> = vec![117u8, 110, 107, 110, 111, 119, 110];
    proof {
        assert(r@ =~= k_unknown_lc());
    }
    r
}

/// "initializing"
pub open spec fn k_initializing() -> Seq<u8> {
    seq![105u8, 110, 105, 116, 105, 97, 108, 105, 122, 105, 110, 103]
}

/// Executable twin of [`k_initializing`].
pub fn b_initializing() -> (r: Vec<u8>)
    ensures
        r@ == k_initializing(),
{
    let r: Vec<u8> = vec![105u8, 110, 105, 116, 105, 97, 108, 105, 122, 105, 110, 103];
    proof {
        assert(r@ =~= k_initializing());
    }
    r
}

/// "connected"
pub open spec fn k_connected() -> Seq<u8> {
    seq![99u8, 111, 110, 110, 101, 99, 116, 101, 100]
}

/// Executable twin of [`k_connected`].
pub fn b_connected() -> (r: Vec<u8>)
    ensures
        r@ == k_connected(),
{
    let r: Vec<u8> = vec![99u8, 111, 110, 110, 101, 99, 116, 101, 100];
    proof {
        assert(r@ =~= k_connected());
    }
    r
}

/// "failed"
pub open spec fn k_failed() -> Seq<u8> {
    seq![102u8, 97, 105, 108, 101, 100]
}

/// Executable twin of [`k_failed`].
pub fn b_failed() -> (r: Vec<u8>)
    ensures
        r@ == k_failed(),
{
    let r: Vec<u8> = vec![102u8, 97, 105, 108, 101, 100];
    proof {
        assert(r@ =~= k_failed());
    }
    r
}

/// "mcp-session-id"
pub open spec fn k_mcp_session_id() -> Seq<u8> {
    seq![109u8, 99, 112, 45, 115, 101, 115, 115, 105, 111, 110, 45, 105, 100]
}

/// Executable twin of [`k_mcp_session_id`].
pub fn b_mcp_session_id() -> (r: Vec<u8>)
    ensures
        r@ == k_mcp_session_id(),
{
    let r: Vec<u8> = vec![109u8, 99, 112, 45, 115, 101, 115, 115, 105, 111, 110, 45, 105, 100];
    proof {
        assert(r@ =~= k_mcp_session_id());
    }
    r
}

/// "Content-Type"
pub open spec fn k_content_type() -> Seq<u8> {
    seq![67u8, 111, 110, 116, 101, 110, 116, 45, 84, 121, 112, 101]
}

/// Executable twin of [`k_content_type`].
pub fn b_content_type() -> (r: Vec<u8>)
    ensures
        r@ == k_content_type(),
{
    let r: Vec<u8> = vec![67u8, 111, 110, 116, 101, 110, 116, 45, 84, 121, 112, 101];
    proof {
        assert(r@ =~= k_content_type());
    }
    r
}

/// "application/json"
pub open spec fn k_application_json() -> Seq<u8> {
    seq![97u8, 112, 112, 108, 105, 99, 97, 116, 105, 111, 110, 47, 106, 115, 111, 110]
}

/// Executable twin of [`k_application_json`].
pub fn b_application_json() -> (r: Vec<u8>)
    ensures
        r@ == k_application_json(),
{
    let r: Vec<u8> = vec![97u8, 112, 112, 108, 105, 99, 97, 116, 105, 111, 110, 47, 106, 115, 111, 110];
    proof {
        assert(r@ =~= k_application_json());
    }
    r
}

/// "Accept"
pub open spec fn k_accept() -> Seq<u8> {
    seq![65u8, 99, 99, 101, 112, 116]
}

/// Executable twin of [`k_accept`].
pub fn b_accept() -> (r: Vec<u8>)
    ensures
        r@ == k_accept(),
{
    let r: Vec<u8> = vec![65u8, 99, 99, 101, 112, 116];
    proof {
        assert(r@ =~= k_accept());
    }
    r
}

/// "application/json, text/event-stream"
pub open spec fn k_accept_json_sse() -> Seq<u8> {
    seq![97u8, 112, 112, 108, 105, 99, 97, 116, 105, 111, 110, 47, 106, 115, 111, 110, 44, 32, 116, 101, 120, 116, 47, 101, 118, 101, 110, 116, 45, 115, 116, 114, 101, 97, 109]
}

/// Executable twin of [`k_accept_json_sse`].
pub fn b_accept_json_sse() -> (r: Vec<u8>)
    ensures
        r@ == k_accept_json_sse(),
{
    let r: Vec<u8> = vec![97u8, 112, 112, 108, 105, 99, 97, 116, 105, 111, 110, 47, 106, 115, 111, 110, 44, 32, 116, 101, 120, 116, 47, 101, 118, 101, 110, 116, 45, 115, 116, 114, 101, 97, 109];
    proof {
        assert(r@ =~= k_accept_json_sse());
    }
    r
}

/// "Accept-Language"
pub open spec fn k_accept_language() -> Seq<u8> {
    seq![65u8, 99, 99, 101, 112, 116, 45, 76, 97, 110, 103, 117, 97, 103, 101]
}

/// Executable twin of [`k_accept_language`].
pub fn b_accept_language() -> (r: Vec<u8>)
    ensures
        r@ == k_accept_language(),
{
    let r: Vec<u8> = vec![65u8, 99, 99, 101, 112, 116, 45, 76, 97, 110, 103, 117, 97, 103, 101];
    proof {
        assert(r@ =~= k_accept_language());
    }
    r
}

/// "*"
pub open spec fn k_star() -> Seq<u8> {
    seq![42u8]
}

/// Executable twin of [`k_star`].
pub fn b_star() -> (r: Vec<u8>)
    ensures
        r@ == k_star(),
{
    let r: Vec<u8> = vec![42u8];
    proof {
        assert(r@ =~= k_star());
    }
    r
}

/// "mcp-browser-client"
pub open spec fn k_client_name() -> Seq<u8> {
    seq![109u8, 99, 112, 45, 98, 114, 111, 119, 115, 101, 114, 45, 99, 108, 105, 101, 110, 116]
}

/// Executable twin of [`k_client_name`].
pub fn b_client_name() -> (r: Vec<u8>)
    ensures
        r@ == k_client_name(),
{
    let r: Vec<u8> = vec![109u8, 99, 112, 45, 98, 114, 111, 119, 115, 101, 114, 45, 99, 108, 105, 101, 110, 116];
    proof {
        assert(r@ =~= k_client_name());
    }
    r
}

/// "0.1.0"
pub open spec fn k_lib_version() -> Seq<u8> {
    seq![48u8, 46, 49, 46, 48]
}

/// Executable twin of [`k_lib_version`].
pub fn b_lib_version() -> (r: Vec<u8>)
    ensures
        r@ == k_lib_version(),
{
    let r: Vec<u8> = vec![48u8, 46, 49, 46, 48];
    proof {
        assert(r@ =~= k_lib_version());
    }
    r
}

/// "v0.1.0"
pub open spec fn k_v_lib_version() -> Seq<u8> {
    seq![118u8, 48, 46, 49, 46, 48]
}

/// Executable twin of [`k_v_lib_version`].
pub fn b_v_lib_version() -> (r: Vec<u8>)
    ensures
        r@ == k_v_lib_version(),
{
    let r: Vec<u8> = vec![118u8, 48, 46, 49, 46, 48];
    proof {
        assert(r@ =~= k_v_lib_version());
    }
    r
}

/// "1.0.0"
pub open spec fn k_metadata_version() -> Seq<u8> {
    seq![49u8, 46, 48, 46, 48]
}

/// Executable twin of [`k_metadata_version`].
pub fn b_metadata_version() -> (r: Vec<u8>)
    ensures
        r@ == k_metadata_version(),
{
    let r: Vec<u8> = vec![49u8, 46, 48, 46, 48];
    proof {
        assert(r@ =~= k_metadata_version());
    }
    r
}

/// "Failed to parse request: invalid JSON"
pub open spec fn k_parse_fail_msg() -> Seq<u8> {
    seq![70u8, 97, 105, 108, 101, 100, 32, 116, 111, 32, 112, 97, 114, 115, 101, 32, 114, 101, 113, 117, 101, 115, 116, 58, 32, 105, 110, 118, 97, 108, 105, 100, 32, 74, 83, 79, 78]
}

/// Executable twin of [`k_parse_fail_msg`].
pub fn b_parse_fail_msg() -> (r: Vec<u8>)
    ensures
        r@ == k_parse_fail_msg(),
{
    let r: Vec<u8> = vec![70u8, 97, 105, 108, 101, 100, 32, 116, 111, 32, 112, 97, 114, 115, 101, 32, 114, 101, 113, 117, 101, 115, 116, 58, 32, 105, 110, 118, 97, 108, 105, 100, 32, 74, 83, 79, 78];
    proof {
        assert(r@ =~= k_parse_fail_msg());
    }
    r
}

/// "Unknown method: "
pub open spec fn k_unknown_method_prefix() -> Seq<u8> {
    seq![85u8, 110, 107, 110, 111, 119, 110, 32, 109, 101, 116, 104, 111, 100, 58, 32]
}

/// Executable twin of [`k_unknown_method_prefix`].
pub fn b_unknown_method_prefix() -> (r: Vec<u8>)
    ensures
        r@ == k_unknown_method_prefix(),
{
    let r: Vec<u8> = vec![85u8, 110, 107, 110, 111, 119, 110, 32, 109, 101, 116, 104, 111, 100, 58, 32];
    proof {
        assert(r@ =~= k_unknown_method_prefix());
    }
    r
}

/// "Processing MCP server health check request"
pub open spec fn k_processing_health_check() -> Seq<u8> {
    seq![80u8, 114, 111, 99, 101, 115, 115, 105, 110, 103, 32, 77, 67, 80, 32, 115, 101, 114, 118, 101, 114, 32, 104, 101, 97, 108, 116, 104, 32, 99, 104, 101, 99, 107, 32, 114, 101, 113, 117, 101, 115, 116]
}

/// Executable twin of [`k_processing_health_check`].
pub fn b_processing_health_check() -> (r: Vec<u8>)
    ensures
        r@ == k_processing_health_check(),
{
    let r: Vec<u8> = vec![80u8, 114, 111, 99, 101, 115, 115, 105, 110, 103, 32, 77, 67, 80, 32, 115, 101, 114, 118, 101, 114, 32, 104, 101, 97, 108, 116, 104, 32, 99, 104, 101, 99, 107, 32, 114, 101, 113, 117, 101, 115, 116];
    proof {
        assert(r@ =~= k_processing_health_check());
    }
    r
}

/// "MCP server health check response: "
pub open spec fn k_health_response_prefix() -> Seq<u8> {
    seq![77u8, 67, 80, 32, 115, 101, 114, 118, 101, 114, 32, 104, 101, 97, 108, 116, 104, 32, 99, 104, 101, 99, 107, 32, 114, 101, 115, 112, 111, 110, 115, 101, 58, 32]
}

/// Executable twin of [`k_health_response_prefix`].
pub fn b_health_response_prefix() -> (r: Vec<u8>)
    ensures
        r@ == k_health_response_prefix(),
{
    let r: Vec<u8> = vec![77u8, 67, 80, 32, 115, 101, 114, 118, 101, 114, 32, 104, 101, 97, 108, 116, 104, 32, 99, 104, 101, 99, 107, 32, 114, 101, 115, 112, 111, 110, 115, 101, 58, 32];
    proof {
        assert(r@ =~= k_health_response_prefix());
    }
    r
}

/// "MCP Server at "
pub open spec fn k_server_at_prefix() -> Seq<u8> {
    seq![77u8, 67, 80, 32, 83, 101, 114, 118, 101, 114, 32, 97, 116, 32]
}

/// Executable twin of [`k_server_at_prefix`].
pub fn b_server_at_prefix() -> (r: Vec<u8>)
    ensures
        r@ == k_server_at_prefix(),
{
    let r: Vec<u8> = vec![77u8, 67, 80, 32, 83, 101, 114, 118, 101, 114, 32, 97, 116, 32];
    proof {
        assert(r@ =~= k_server_at_prefix());
    }
    r
}

/// "success"
pub open spec fn k_success() -> Seq<u8> {
    seq![115u8, 117, 99, 99, 101, 115, 115]
}

/// Executable twin of [`k_success`].
pub fn b_success() -> (r: Vec<u8>)
    ensures
        r@ == k_success(),
{
    let r: Vec<u8> = vec![115u8, 117, 99, 99, 101, 115, 115];
    proof {
        assert(r@ =~= k_success());
    }
    r
}

/// "Successfully initialized MCP server at "
pub open spec fn k_init_ok_prefix() -> Seq<u8> {
    seq![83u8, 117, 99, 99, 101, 115, 115, 102, 117, 108, 108, 121, 32, 105, 110, 105, 116, 105, 97, 108, 105, 122, 101, 100, 32, 77, 67, 80, 32, 115, 101, 114, 118, 101, 114, 32, 97, 116, 32]
}

/// Executable twin of [`k_init_ok_prefix`].
pub fn b_init_ok_prefix() -> (r: Vec<u8>)
    ensures
        r@ == k_init_ok_prefix(),
{
    let r: Vec<u8> = vec![83u8, 117, 99, 99, 101, 115, 115, 102, 117, 108, 108, 121, 32, 105, 110, 105, 116, 105, 97, 108, 105, 122, 101, 100, 32, 77, 67, 80, 32, 115, 101, 114, 118, 101, 114, 32, 97, 116, 32];
    proof {
        assert(r@ =~= k_init_ok_prefix());
    }
    r
}

/// "Failed to initialize MCP server: "
pub open spec fn k_init_fail_prefix() -> Seq<u8> {
    seq![70u8, 97, 105, 108, 101, 100, 32, 116, 111, 32, 105, 110, 105, 116, 105, 97, 108, 105, 122, 101, 32, 77, 67, 80, 32, 115, 101, 114, 118, 101, 114, 58, 32]
}

/// Executable twin of [`k_init_fail_prefix`].
pub fn b_init_fail_prefix() -> (r: Vec<u8>)
    ensures
        r@ == k_init_fail_prefix(),
{
    let r: Vec<u8> = vec![70u8, 97, 105, 108, 101, 100, 32, 116, 111, 32, 105, 110, 105, 116, 105, 97, 108, 105, 122, 101, 32, 77, 67, 80, 32, 115, 101, 114, 118, 101, 114, 58, 32];
    proof {
        assert(r@ =~= k_init_fail_prefix());
    }
    r
}

/// "Server returned error response (status "
pub open spec fn k_status_prefix() -> Seq<u8> {
    seq![83u8, 101, 114, 118, 101, 114, 32, 114, 101, 116, 117, 114, 110, 101, 100, 32, 101, 114, 114, 111, 114, 32, 114, 101, 115, 112, 111, 110, 115, 101, 32, 40, 115, 116, 97, 116, 117, 115, 32]
}

/// Executable twin of [`k_status_prefix`].
pub fn b_status_prefix() -> (r: Vec<u8>)
    ensures
        r@ == k_status_prefix(),
{
    let r: Vec<u8> = vec![83u8, 101, 114, 118, 101, 114, 32, 114, 101, 116, 117, 114, 110, 101, 100, 32, 101, 114, 114, 111, 114, 32, 114, 101, 115, 112, 111, 110, 115, 101, 32, 40, 115, 116, 97, 116, 117, 115, 32];
    proof {
        assert(r@ =~= k_status_prefix());
    }
    r
}

/// ")"
pub open spec fn k_close_paren() -> Seq<u8> {
    seq![41u8]
}

/// Executable twin of [`k_close_paren`].
pub fn b_close_paren() -> (r: Vec<u8>)
    ensures
        r@ == k_close_paren(),
{
    let r: Vec<u8> = vec![41u8];
    proof {
        assert(r@ =~= k_close_paren());
    }
    r
}

/// "Failed to parse handshake response"
pub open spec fn k_parse_handshake_fail() -> Seq<u8> {
    seq![70u8, 97, 105, 108, 101, 100, 32, 116, 111, 32, 112, 97, 114, 115, 101, 32, 104, 97, 110, 100, 115, 104, 97, 107, 101, 32, 114, 101, 115, 112, 111, 110, 115, 101]
}

/// Executable twin of [`k_parse_handshake_fail`].
pub fn b_parse_handshake_fail() -> (r: Vec<u8>)
    ensures
        r@ == k_parse_handshake_fail(),
{
    let r: Vec<u8> = vec![70u8, 97, 105, 108, 101, 100, 32, 116, 111, 32, 112, 97, 114, 115, 101, 32, 104, 97, 110, 100, 115, 104, 97, 107, 101, 32, 114, 101, 115, 112, 111, 110, 115, 101];
    proof {
        assert(r@ =~= k_parse_handshake_fail());
    }
    r
}

/// "no result in handshake response"
pub open spec fn k_no_result_handshake() -> Seq<u8> {
    seq![110u8, 111, 32, 114, 101, 115, 117, 108, 116, 32, 105, 110, 32, 104, 97, 110, 100, 115, 104, 97, 107, 101, 32, 114, 101, 115, 112, 111, 110, 115, 101]
}

/// Executable twin of [`k_no_result_handshake`].
pub fn b_no_result_handshake() -> (r: Vec<u8>)
    ensures
        r@ == k_no_result_handshake(),
{
    let r: Vec<u8> = vec![110u8, 111, 32, 114, 101, 115, 117, 108, 116, 32, 105, 110, 32, 104, 97, 110, 100, 115, 104, 97, 107, 101, 32, 114, 101, 115, 112, 111, 110, 115, 101];
    proof {
        assert(r@ =~= k_no_result_handshake());
    }
    r
}

/// "Failed to connect to server"
pub open spec fn k_connect_fail() -> Seq<u8> {
    seq![70u8, 97, 105, 108, 101, 100, 32, 116, 111, 32, 99, 111, 110, 110, 101, 99, 116, 32, 116, 111, 32, 115, 101, 114, 118, 101, 114]
}

/// Executable twin of [`k_connect_fail`].
pub fn b_connect_fail() -> (r: Vec<u8>)
    ensures
        r@ == k_connect_fail(),
{
    let r: Vec<u8> = vec![70u8, 97, 105, 108, 101, 100, 32, 116, 111, 32, 99, 111, 110, 110, 101, 99, 116, 32, 116, 111, 32, 115, 101, 114, 118, 101, 114];
    proof {
        assert(r@ =~= k_connect_fail());
    }
    r
}

/// "Server returned error response"
pub open spec fn k_http_error_response() -> Seq<u8> {
    seq![83u8, 101, 114, 118, 101, 114, 32, 114, 101, 116, 117, 114, 110, 101, 100, 32, 101, 114, 114, 111, 114, 32, 114, 101, 115, 112, 111, 110, 115, 101]
}

/// Executable twin of [`k_http_error_response`].
pub fn b_http_error_response() -> (r: Vec<u8>)
    ensures
        r@ == k_http_error_response(),
{
    let r: Vec<u8> = vec![83u8, 101, 114, 118, 101, 114, 32, 114, 101, 116, 117, 114, 110, 101, 100, 32, 101, 114, 114, 111, 114, 32, 114, 101, 115, 112, 111, 110, 115, 101];
    proof {
        assert(r@ =~= k_http_error_response());
    }
    r
}

/// "Failed to parse tools response"
pub open spec fn k_parse_tools_fail() -> Seq<u8> {
    seq![70u8, 97, 105, 108, 101, 100, 32, 116, 111, 32, 112, 97, 114, 115, 101, 32, 116, 111, 111, 108, 115, 32, 114, 101, 115, 112, 111, 110, 115, 101]
}

/// Executable twin of [`k_parse_tools_fail`].
pub fn b_parse_tools_fail() -> (r: Vec<u8>)
    ensures
        r@ == k_parse_tools_fail(),
{
    let r: Vec<u8> = vec![70u8, 97, 105, 108, 101, 100, 32, 116, 111, 32, 112, 97, 114, 115, 101, 32, 116, 111, 111, 108, 115, 32, 114, 101, 115, 112, 111, 110, 115, 101];
    proof {
        assert(r@ =~= k_parse_tools_fail());
    }
    r
}

/// "No result or error in response"
pub open spec fn k_no_result_or_error() -> Seq<u8> {
    seq![78u8, 111, 32, 114, 101, 115, 117, 108, 116, 32, 111, 114, 32, 101, 114, 114, 111, 114, 32, 105, 110, 32, 114, 101, 115, 112, 111, 110, 115, 101]
}

/// Executable twin of [`k_no_result_or_error`].
pub fn b_no_result_or_error() -> (r: Vec<u8>)
    ensures
        r@ == k_no_result_or_error(),
{
    let r: Vec<u8> = vec![78u8, 111, 32, 114, 101, 115, 117, 108, 116, 32, 111, 114, 32, 101, 114, 114, 111, 114, 32, 105, 110, 32, 114, 101, 115, 112, 111, 110, 115, 101];
    proof {
        assert(r@ =~= k_no_result_or_error());
    }
    r
}

/// "Failed to parse response"
pub open spec fn k_parse_response_fail() -> Seq<u8> {
    seq![70u8, 97, 105, 108, 101, 100, 32, 116, 111, 32, 112, 97, 114, 115, 101, 32, 114, 101, 115, 112, 111, 110, 115, 101]
}

/// Executable twin of [`k_parse_response_fail`].
pub fn b_parse_response_fail() -> (r: Vec<u8>)
    ensures
        r@ == k_parse_response_fail(),
{
    let r: Vec<u8> = vec![70u8, 97, 105, 108, 101, 100, 32, 116, 111, 32, 112, 97, 114, 115, 101, 32, 114, 101, 115, 112, 111, 110, 115, 101];
    proof {
        assert(r@ =~= k_parse_response_fail());
    }
    r
}

/// "servers"
pub open spec fn k_servers() -> Seq<u8> {
    seq![115u8, 101, 114, 118, 101, 114, 115]
}

/// Executable twin of [`k_servers`].
pub fn b_servers() -> (r: Vec<u8>)
    ensures
        r@ == k_servers(),
{
    let r: Vec<u8> = vec![115u8, 101, 114, 118, 101, 114, 115];
    proof {
        assert(r@ =~= k_servers());
    }
    r
}

/// "default_server"
pub open spec fn k_default_server() -> Seq<u8> {
    seq![100u8, 101, 102, 97, 117, 108, 116, 95, 115, 101, 114, 118, 101, 114]
}

/// Executable twin of [`k_default_server`].
pub fn b_default_server() -> (r: Vec<u8>)
    ensures
        r@ == k_default_server(),
{
    let r: Vec<u8> = vec![100u8, 101, 102, 97, 117, 108, 116, 95, 115, 101, 114, 118, 101, 114];
    proof {
        assert(r@ =~= k_default_server());
    }
    r
}

/// "url"
pub open spec fn k_url() -> Seq<u8> {
    seq![117u8, 114, 108]
}

/// Executable twin of [`k_url`].
pub fn b_url() -> (r: Vec<u8>)
    ensures
        r@ == k_url(),
{
    let r: Vec<u8> = vec![117u8, 114, 108];
    proof {
        assert(r@ =~= k_url());
    }
    r
}

/// "session_id"
pub open spec fn k_session_id() -> Seq<u8> {
    seq![115u8, 101, 115, 115, 105, 111, 110, 95, 105, 100]
}

/// Executable twin of [`k_session_id`].
pub fn b_session_id() -> (r: Vec<u8>)
    ensures
        r@ == k_session_id(),
{
    let r: Vec<u8> = vec![115u8, 101, 115, 115, 105, 111, 110, 95, 105, 100];
    proof {
        assert(r@ =~= k_session_id());
    }
    r
}

/// "last_health_check"
pub open spec fn k_last_health_check() -> Seq<u8> {
    seq![108u8, 97, 115, 116, 95, 104, 101, 97, 108, 116, 104, 95, 99, 104, 101, 99, 107]
}

/// Executable twin of [`k_last_health_check`].
pub fn b_last_health_check() -> (r: Vec<u8>)
    ensures
        r@ == k_last_health_check(),
{
    let r: Vec<u8> = vec![108u8, 97, 115, 116, 95, 104, 101, 97, 108, 116, 104, 95, 99, 104, 101, 99, 107];
    proof {
        assert(r@ =~= k_last_health_check());
    }
    r
}

/// "memory_events"
pub open spec fn k_memory_events() -> Seq<u8> {
    seq![109u8, 101, 109, 111, 114, 121, 95, 101, 118, 101, 110, 116, 115]
}

/// Executable twin of [`k_memory_events`].
pub fn b_memory_events() -> (r: Vec<u8>)
    ensures
        r@ == k_memory_events(),
{
    let r: Vec<u8> = vec![109u8, 101, 109, 111, 114, 121, 95, 101, 118, 101, 110, 116, 115];
    proof {
        assert(r@ =~= k_memory_events());
    }
    r
}

/// "required"
pub open spec fn k_required() -> Seq<u8> {
    seq![114u8, 101, 113, 117, 105, 114, 101, 100]
}

/// Executable twin of [`k_required`].
pub fn b_required() -> (r: Vec<u8>)
    ensures
        r@ == k_required(),
{
    let r: Vec<u8> = vec![114u8, 101, 113, 117, 105, 114, 101, 100];
    proof {
        assert(r@ =~= k_required());
    }
    r
}

/// "type"
pub open spec fn k_type_key() -> Seq<u8> {
    seq![116u8, 121, 112, 101]
}

/// Executable twin of [`k_type_key`].
pub fn b_type_key() -> (r: Vec<u8>)
    ensures
        r@ == k_type_key(),
{
    let r: Vec<u8> = vec![116u8, 121, 112, 101];
    proof {
        assert(r@ =~= k_type_key());
    }
    r
}

/// "parameters"
pub open spec fn k_parameters() -> Seq<u8> {
    seq![112u8, 97, 114, 97, 109, 101, 116, 101, 114, 115]
}

/// Executable twin of [`k_parameters`].
pub fn b_parameters() -> (r: Vec<u8>)
    ensures
        r@ == k_parameters(),
{
    let r: Vec<u8> = vec![112u8, 97, 114, 97, 109, 101, 116, 101, 114, 115];
    proof {
        assert(r@ =~= k_parameters());
    }
    r
}

/// "text"
pub open spec fn k_text() -> Seq<u8> {
    seq![116u8, 101, 120, 116]
}

/// Executable twin of [`k_text`].
pub fn b_text() -> (r: Vec<u8>)
    ensures
        r@ == k_text(),
{
    let r: Vec<u8> = vec![116u8, 101, 120, 116];
    proof {
        assert(r@ =~= k_text());
    }
    r
}

/// "bootrom"
pub open spec fn k_bootrom_id() -> Seq<u8> {
    seq![98u8, 111, 111, 116, 114, 111, 109]
}

/// Executable twin of [`k_bootrom_id`].
pub fn b_bootrom_id() -> (r: Vec<u8>)
    ensures
        r@ == k_bootrom_id(),
{
    let r: Vec<u8> = vec![98u8, 111, 111, 116, 114, 111, 109];
    proof {
        assert(r@ =~= k_bootrom_id());
    }
    r
}

/// "BOOTROM"
pub open spec fn k_bootrom_name() -> Seq<u8> {
    seq![66u8, 79, 79, 84, 82, 79, 77]
}

/// Executable twin of [`k_bootrom_name`].
pub fn b_bootrom_name() -> (r: Vec<u8>)
    ensures
        r@ == k_bootrom_name(),
{
    let r: Vec<u8> = vec![66u8, 79, 79, 84, 82, 79, 77];
    proof {
        assert(r@ =~= k_bootrom_name());
    }
    r
}

/// " built "
pub open spec fn k_built_sep() -> Seq<u8> {
    seq![32u8, 98, 117, 105, 108, 116, 32]
}

/// Executable twin of [`k_built_sep`].
pub fn b_built_sep() -> (r: Vec<u8>)
    ensures
        r@ == k_built_sep(),
{
    let r: Vec<u8> = vec![32u8, 98, 117, 105, 108, 116, 32];
    proof {
        assert(r@ =~= k_built_sep());
    }
    r
}

/// " ("
pub open spec fn k_open_paren() -> Seq<u8> {
    seq![32u8, 40]
}

/// Executable twin of [`k_open_paren`].
pub fn b_open_paren() -> (r: Vec<u8>)
    ensures
        r@ == k_open_paren(),
{
    let r: Vec<u8> = vec![32u8, 40];
    proof {
        assert(r@ =~= k_open_paren());
    }
    r
}

/// "-32700"
pub open spec fn k_neg_32700() -> Seq<u8> {
    seq![45u8, 51, 50, 55, 48, 48]
}

/// Executable twin of [`k_neg_32700`].
pub fn b_neg_32700() -> (r: Vec<u8>)
    ensures
        r@ == k_neg_32700(),
{
    let r: Vec<u8> = vec![45u8, 51, 50, 55, 48, 48];
    proof {
        assert(r@ =~= k_neg_32700());
    }
    r
}

/// "-32601"
pub open spec fn k_neg_32601() -> Seq<u8> {
    seq![45u8, 51, 50, 54, 48, 49]
}

/// Executable twin of [`k_neg_32601`].
pub fn b_neg_32601() -> (r: Vec<u8>)
    ensures
        r@ == k_neg_32601(),
{
    let r: Vec<u8> = vec![45u8, 51, 50, 54, 48, 49];
    proof {
        assert(r@ =~= k_neg_32601());
    }
    r
}

/// "server_info"
pub open spec fn k_server_info_key() -> Seq<u8> {
    seq![115u8, 101, 114, 118, 101, 114, 95, 105, 110, 102, 111]
}

/// Executable twin of [`k_server_info_key`].
pub fn b_server_info_key() -> (r: Vec<u8>)
    ensures
        r@ == k_server_info_key(),
{
    let r: Vec<u8> = vec![115u8, 101, 114, 118, 101, 114, 95, 105, 110, 102, 111];
    proof {
        assert(r@ =~= k_server_info_key());
    }
    r
}

/// "http://localhost:8081"
pub open spec fn k_default_url() -> Seq<u8> {
    seq![104u8, 116, 116, 112, 58, 47, 47, 108, 111, 99, 97, 108, 104, 111, 115, 116, 58, 56, 48, 56, 49]
}

/// Executable twin of [`k_default_url`].
pub fn b_default_url() -> (r: Vec<u8>)
    ensures
        r@ == k_default_url(),
{
    let r: Vec<u8> = vec![104u8, 116, 116, 112, 58, 47, 47, 108, 111, 99, 97, 108, 104, 111, 115, 116, 58, 56, 48, 56, 49];
    proof {
        assert(r@ =~= k_default_url());
    }
    r
}

/// "already_registered"
pub open spec fn k_already_registered() -> Seq<u8> {
    seq![97u8, 108, 114, 101, 97, 100, 121, 95, 114, 101, 103, 105, 115, 116, 101, 114, 101, 100]
}

/// Executable twin of [`k_already_registered`].
pub fn b_already_registered() -> (r: Vec<u8>)
    ensures
        r@ == k_already_registered(),
{
    let r: Vec<u8> = vec![97u8, 108, 114, 101, 97, 100, 121, 95, 114, 101, 103, 105, 115, 116, 101, 114, 101, 100];
    proof {
        assert(r@ =~= k_already_registered());
    }
    r
}

/// "MCP server returned error: "
pub open spec fn k_rpc_error_prefix() -> Seq<u8> {
    seq![77u8, 67, 80, 32, 115, 101, 114, 118, 101, 114, 32, 114, 101, 116, 117, 114, 110, 101, 100, 32, 101, 114, 114, 111, 114, 58, 32]
}

/// Executable twin of [`k_rpc_error_prefix`].
pub fn b_rpc_error_prefix() -> (r: Vec<u8>)
    ensures
        r@ == k_rpc_error_prefix(),
{
    let r: Vec<u8> = vec![77u8, 67, 80, 32, 115, 101, 114, 118, 101, 114, 32, 114, 101, 116, 117, 114, 110, 101, 100, 32, 101, 114, 114, 111, 114, 58, 32];
    proof {
        assert(r@ =~= k_rpc_error_prefix());
    }
    r
}

/// " (code: "
pub open spec fn k_code_sep() -> Seq<u8> {
    seq![32u8, 40, 99, 111, 100, 101, 58, 32]
}

/// Executable twin of [`k_code_sep`].
pub fn b_code_sep() -> (r: Vec<u8>)
    ensures
        r@ == k_code_sep(),
{
    let r: Vec<u8> = vec![32u8, 40, 99, 111, 100, 101, 58, 32];
    proof {
        assert(r@ =~= k_code_sep());
    }
    r
}

/// "MCP server health check failed - server reported status: "
pub open spec fn k_unhealthy_prefix() -> Seq<u8> {
    seq![77u8, 67, 80, 32, 115, 101, 114, 118, 101, 114, 32, 104, 101, 97, 108, 116, 104, 32, 99, 104, 101, 99, 107, 32, 102, 97, 105, 108, 101, 100, 32, 45, 32, 115, 101, 114, 118, 101, 114, 32, 114, 101, 112, 111, 114, 116, 101, 100, 32, 115, 116, 97, 116, 117, 115, 58, 32]
}

/// Executable twin of [`k_unhealthy_prefix`].
pub fn b_unhealthy_prefix() -> (r: Vec<u8>)
    ensures
        r@ == k_unhealthy_prefix(),
{
    let r: Vec<u8> = vec![77u8, 67, 80, 32, 115, 101, 114, 118, 101, 114, 32, 104, 101, 97, 108, 116, 104, 32, 99, 104, 101, 99, 107, 32, 102, 97, 105, 108, 101, 100, 32, 45, 32, 115, 101, 114, 118, 101, 114, 32, 114, 101, 112, 111, 114, 116, 101, 100, 32, 115, 116, 97, 116, 117, 115, 58, 32];
    proof {
        assert(r@ =~= k_unhealthy_prefix());
    }
    r
}

/// "MCP server health check failed - received error response"
pub open spec fn k_health_http_fail() -> Seq<u8> {
    seq![77u8, 67, 80, 32, 115, 101, 114, 118, 101, 114, 32, 104, 101, 97, 108, 116, 104, 32, 99, 104, 101, 99, 107, 32, 102, 97, 105, 108, 101, 100, 32, 45, 32, 114, 101, 99, 101, 105, 118, 101, 100, 32, 101, 114, 114, 111, 114, 32, 114, 101, 115, 112, 111, 110, 115, 101]
}

/// Executable twin of [`k_health_http_fail`].
pub fn b_health_http_fail() -> (r: Vec<u8>)
    ensures
        r@ == k_health_http_fail(),
{
    let r: Vec<u8> = vec![77u8, 67, 80, 32, 115, 101, 114, 118, 101, 114, 32, 104, 101, 97, 108, 116, 104, 32, 99, 104, 101, 99, 107, 32, 102, 97, 105, 108, 101, 100, 32, 45, 32, 114, 101, 99, 101, 105, 118, 101, 100, 32, 101, 114, 114, 111, 114, 32, 114, 101, 115, 112, 111, 110, 115, 101];
    proof {
        assert(r@ =~= k_health_http_fail());
    }
    r
}

/// "Failed to parse MCP server response as JSON-RPC"
pub open spec fn k_health_parse_fail() -> Seq<u8> {
    seq![70u8, 97, 105, 108, 101, 100, 32, 116, 111, 32, 112, 97, 114, 115, 101, 32, 77, 67, 80, 32, 115, 101, 114, 118, 101, 114, 32, 114, 101, 115, 112, 111, 110, 115, 101, 32, 97, 115, 32, 74, 83, 79, 78, 45, 82, 80, 67]
}

/// Executable twin of [`k_health_parse_fail`].
pub fn b_health_parse_fail() -> (r: Vec<u8>)
    ensures
        r@ == k_health_parse_fail(),
{
    let r: Vec<u8> = vec![70u8, 97, 105, 108, 101, 100, 32, 116, 111, 32, 112, 97, 114, 115, 101, 32, 77, 67, 80, 32, 115, 101, 114, 118, 101, 114, 32, 114, 101, 115, 112, 111, 110, 115, 101, 32, 97, 115, 32, 74, 83, 79, 78, 45, 82, 80, 67];
    proof {
        assert(r@ =~= k_health_parse_fail());
    }
    r
}

/// "Failed to connect to MCP server"
pub open spec fn k_connect_mcp_fail() -> Seq<u8> {
    seq![70u8, 97, 105, 108, 101, 100, 32, 116, 111, 32, 99, 111, 110, 110, 101, 99, 116, 32, 116, 111, 32, 77, 67, 80, 32, 115, 101, 114, 118, 101, 114]
}

/// Executable twin of [`k_connect_mcp_fail`].
pub fn b_connect_mcp_fail() -> (r: Vec<u8>)
    ensures
        r@ == k_connect_mcp_fail(),
{
    let r: Vec<u8> = vec![70u8, 97, 105, 108, 101, 100, 32, 116, 111, 32, 99, 111, 110, 110, 101, 99, 116, 32, 116, 111, 32, 77, 67, 80, 32, 115, 101, 114, 118, 101, 114];
    proof {
        assert(r@ =~= k_connect_mcp_fail());
    }
    r
}

} // verus!
