//! The method dispatcher: building the requests of each public
//! operation and reading their responses.
//!
//! Every operation is split at the network boundary: a `*_request`
//! function yields the POST to perform, and a `*_result` function turns
//! whatever came back into the operation's outcome. The generic message
//! entry point answers ill-formed or unknown requests itself and asks
//! the host to run a server health check for the one method it knows.
use vstd::prelude::*;

use crate::bytes::{lower_bytes, bytes_eq};
use crate::json::{
    Json, JsonV, get_field, as_str, json_get, json_as_str, push_all, spec_json, parse_json,
    ser_json, json_to_bytes,
};
use crate::registry::{McpServerRegistry, session_of};
use crate::rpc::{
    req_bytes, num_u64, id_json, rpc_request_of, response_of_doc, RpcErrorV, read_request,
    read_response, build_request, json_u64,
};
use crate::transport::{
    TransportResult, TransportResultV, RequestPlan, is_2xx,
};
use crate::strs::{
    k_health_check, k_content_type, k_application_json, k_accept, k_status, k_healthy,
    k_unhealthy, k_jsonrpc, k_two_zero, k_id, k_error, k_code, k_message, k_logs, k_level,
    k_timestamp, k_lvl_error, k_lvl_info, k_neg_32700, k_neg_32601, k_parse_fail_msg,
    k_unknown_method_prefix, k_result, k_uptime, k_version, k_lib_version,
    k_processing_health_check, k_health_response_prefix, b_health_check, b_content_type,
    b_application_json, b_accept, b_status, b_healthy, b_unhealthy, b_jsonrpc, b_two_zero, b_id,
    b_error, b_code, b_message, b_logs, b_level, b_timestamp, b_lvl_error, b_lvl_info,
    b_neg_32700, b_neg_32601, b_parse_fail_msg, b_unknown_method_prefix, b_result, b_uptime,
    b_version, b_lib_version, b_processing_health_check, b_health_response_prefix,
};

verus! {

// ------------------------------------------------------------------
// Server health check.
// ------------------------------------------------------------------

/// Headers of the health check request.
pub open spec fn health_check_headers() -> Seq<(Seq<u8>, Seq<u8>)> {
    seq![(k_content_type(), k_application_json()), (k_accept(), k_application_json())]
}

/// Builds the `health_check` request sent to the configured server.
pub fn check_mcp_server_request(id: u64) -> (r: RequestPlan)
    ensures
        r@.body == req_bytes(k_health_check(), Some(JsonV::Obj(Seq::empty())), Some(id)),
        r@.headers == health_check_headers(),
{
    let empty_params = Json::Obj(Vec::new());
    proof {
        assert(empty_params@->Obj_0 =~= Seq::<(Seq<u8>, JsonV)>::empty());
        assert(empty_params@ == JsonV::Obj(Seq::<(Seq<u8>, JsonV)>::empty()));
    }
    let body = build_request(&b_health_check(), Some(empty_params), Some(id));
    let mut headers: Vec<(Vec<u8>, Vec<u8>)> = Vec::new();
    headers.push((b_content_type(), b_application_json()));
    headers.push((b_accept(), b_application_json()));
    let r = RequestPlan { body, headers };
    proof {
        assert(r@.headers =~~= health_check_headers());
    }
    r
}

/// A healthy answer: a success status, a well-formed envelope with no
/// error member, and a `result.status` string that folds to "healthy".
/// The status is compared in its document spelling: escape sequences
/// inside the string are not decoded first.
pub open spec fn health_ok(o: TransportResultV) -> bool {
    match o {
        TransportResultV::Failure => false,
        TransportResultV::Response(h) => is_2xx(h.status) && match response_of_doc(h.body) {
            Some(resp) => resp.error is None && match resp.result {
                Some(res) => match get_field(res, k_status()) {
                    Some(st) => match as_str(st) {
                        Some(s) => lower_bytes(s) == k_healthy(),
                        None => false,
                    },
                    None => false,
                },
                None => false,
            },
            None => false,
        },
    }
}

/// Why the server health check did not report a healthy server.
#[derive(Debug)]
pub enum CheckServerError {
    /// The request never produced a response.
    Transport,
    /// The response had a status outside the success range.
    Http(u16),
    /// The body was not a well-formed JSON-RPC response.
    Parse,
    /// The envelope carried a JSON-RPC error object; its code and
    /// message are surfaced.
    Rpc { code: i32, message: Vec<u8> },
    /// The envelope carried no `result.status` string to judge.
    Protocol,
    /// The server reported a status other than healthy; the reported
    /// word is carried.
    Unhealthy(Vec<u8>),
}

impl CheckServerError {
    /// The diagnostic text of this error, for the host to log.
    pub fn message(&self) -> (r: Vec<u8>)
        ensures
            r@ == match self {
                CheckServerError::Transport => crate::strs::k_connect_mcp_fail(),
                CheckServerError::Http(_) => crate::strs::k_health_http_fail(),
                CheckServerError::Parse => crate::strs::k_health_parse_fail(),
                CheckServerError::Rpc { code, message } => crate::strs::k_rpc_error_prefix()
                    + message@ + crate::strs::k_code_sep() + crate::bytes::dec_of_i32(code as int)
                    + crate::strs::k_close_paren(),
                CheckServerError::Protocol => crate::strs::k_health_parse_fail(),
                CheckServerError::Unhealthy(w) => crate::strs::k_unhealthy_prefix() + w@,
            },
    {
        match self {
            CheckServerError::Transport => crate::strs::b_connect_mcp_fail(),
            CheckServerError::Http(_) => crate::strs::b_health_http_fail(),
            CheckServerError::Parse => crate::strs::b_health_parse_fail(),
            CheckServerError::Rpc { code, message } => {
                let mut out = crate::strs::b_rpc_error_prefix();
                push_all(message, &mut out);
                let sep = crate::strs::b_code_sep();
                push_all(&sep, &mut out);
                crate::bytes::push_i32_dec(*code, &mut out);
                let paren = crate::strs::b_close_paren();
                push_all(&paren, &mut out);
                proof {
                    assert(out@ =~= crate::strs::k_rpc_error_prefix() + message@
                        + crate::strs::k_code_sep() + crate::bytes::dec_of_i32(*code as int)
                        + crate::strs::k_close_paren());
                }
                out
            },
            CheckServerError::Protocol => crate::strs::b_health_parse_fail(),
            CheckServerError::Unhealthy(w) => {
                let mut out = crate::strs::b_unhealthy_prefix();
                push_all(w, &mut out);
                proof {
                    assert(out@ =~= crate::strs::k_unhealthy_prefix() + w@);
                }
                out
            },
        }
    }
}

/// Reads a transport outcome for the server health check in full: a
/// healthy server, or the preserved cause of every other outcome.
pub fn check_mcp_server_detail(outcome: &TransportResult) -> (r: Result<(), CheckServerError>)
    ensures
        ({
            match outcome@ {
                TransportResultV::Failure => r == Err::<(), CheckServerError>(
                    CheckServerError::Transport,
                ),
                TransportResultV::Response(h) => {
                    if !is_2xx(h.status) {
                        r == Err::<(), CheckServerError>(CheckServerError::Http(h.status))
                    } else {
                        match response_of_doc(h.body) {
                            None => r == Err::<(), CheckServerError>(CheckServerError::Parse),
                            Some(resp) => match resp.error {
                                Some(e) => r matches Err(
                                    CheckServerError::Rpc { code, message },
                                ) && code as int == e.code && message@ == e.message,
                                None => match resp.result {
                                    None => r == Err::<(), CheckServerError>(
                                        CheckServerError::Protocol,
                                    ),
                                    Some(res) => match get_field(res, k_status()) {
                                        None => r == Err::<(), CheckServerError>(
                                            CheckServerError::Protocol,
                                        ),
                                        Some(st) => match as_str(st) {
                                            None => r == Err::<(), CheckServerError>(
                                                CheckServerError::Protocol,
                                            ),
                                            Some(s) => if lower_bytes(s) == k_healthy() {
                                                r == Ok::<(), CheckServerError>(())
                                            } else {
                                                r matches Err(
                                                    CheckServerError::Unhealthy(w),
                                                ) && w@ == s
                                            },
                                        },
                                    },
                                },
                            },
                        }
                    }
                },
            }
        }),
{
    let h = match outcome {
        TransportResult::Failure => {
            return Err(CheckServerError::Transport);
        },
        TransportResult::Response(h) => h,
    };
    if !(200 <= h.status && h.status < 300) {
        return Err(CheckServerError::Http(h.status));
    }
    let doc = match parse_json(&h.body) {
        None => {
            return Err(CheckServerError::Parse);
        },
        Some(d) => d,
    };
    let parts = match read_response(&doc) {
        None => {
            return Err(CheckServerError::Parse);
        },
        Some(p) => p,
    };
    match &parts.error {
        Some(e) => {
            let mut message: Vec<u8> = Vec::new();
            push_all(e.message, &mut message);
            proof {
                assert(message@ =~= e.message@);
            }
            return Err(CheckServerError::Rpc { code: e.code, message });
        },
        None => {},
    }
    let res = match parts.result {
        None => {
            return Err(CheckServerError::Protocol);
        },
        Some(r) => r,
    };
    let st = match json_get(res, &b_status()) {
        None => {
            return Err(CheckServerError::Protocol);
        },
        Some(s) => s,
    };
    let sv = match json_as_str(st) {
        None => {
            return Err(CheckServerError::Protocol);
        },
        Some(s) => s,
    };
    let folded = crate::bytes::to_lower(sv);
    if bytes_eq(&folded, &b_healthy()) {
        Ok(())
    } else {
        let mut word: Vec<u8> = Vec::new();
        push_all(sv, &mut word);
        proof {
            assert(word@ =~= sv@);
        }
        Err(CheckServerError::Unhealthy(word))
    }
}

/// Reads a transport outcome for the server health check: zero for a
/// healthy server, one for every other outcome.
pub fn check_mcp_server_result(outcome: &TransportResult) -> (r: u32)
    ensures
        r == if health_ok(outcome@) {
            0u32
        } else {
            1u32
        },
{
    match check_mcp_server_detail(outcome) {
        Ok(_) => 0,
        Err(_) => 1,
    }
}

// ------------------------------------------------------------------
// The generic message entry point.
// ------------------------------------------------------------------

/// One attached log entry.
pub open spec fn log_entry(level: Seq<u8>, msg: Seq<u8>, ts: u64) -> JsonV {
    JsonV::Obj(
        seq![
            (k_level(), JsonV::Str(level)),
            (k_message(), JsonV::Str(msg)),
            (k_timestamp(), num_u64(ts)),
        ],
    )
}

/// An error reply envelope with its attached logs.
pub open spec fn error_reply(id: Option<u64>, code: Seq<u8>, msg: Seq<u8>, logs: Seq<JsonV>) -> JsonV {
    JsonV::Obj(
        seq![
            (k_jsonrpc(), JsonV::Str(k_two_zero())),
            (k_id(), id_json(id)),
            (
                k_error(),
                JsonV::Obj(seq![(k_code(), JsonV::Num(code)), (k_message(), JsonV::Str(msg))]),
            ),
            (k_logs(), JsonV::Arr(logs)),
        ],
    )
}

/// The request a message holds: parsed, then read as an envelope.
pub open spec fn request_of_doc(s: Seq<u8>) -> Option<crate::rpc::RpcRequestV> {
    match spec_json(s) {
        Some(v) => rpc_request_of(v),
        None => None,
    }
}

/// What the host must do with one incoming message.
pub enum MessageAction {
    /// The message asks for a server health check: run it, then build
    /// the reply with [`health_check_reply`].
    CheckServer { id: Option<u64> },
    /// The reply is already decided.
    Reply(Vec<u8>),
}

/// Builds one log entry value.
fn log_entry_json(level: Vec<u8>, msg: Vec<u8>, ts: u64) -> (r: Json)
    ensures
        r@ == log_entry(level@, msg@, ts),
{
    let ghost glevel = level@;
    let ghost gmsg = msg@;
    let lv = Json::Str(level);
    let mv = Json::Str(msg);
    let tv = json_u64(ts);
    proof {
        assert(lv@ == JsonV::Str(glevel));
        assert(mv@ == JsonV::Str(gmsg));
    }
    crate::json::obj_3(b_level(), lv, b_message(), mv, b_timestamp(), tv)
}

/// Builds and serializes an error reply whose single log entry repeats
/// the error message at level ERROR.
fn error_reply_bytes(id: Option<u64>, code: Vec<u8>, msg: Vec<u8>, now: u64) -> (r: Vec<u8>)
    ensures
        r@ == ser_json(
            error_reply(id, code@, msg@, seq![log_entry(k_lvl_error(), msg@, now)]),
        ),
{
    let ghost code_v = code@;
    let ghost msg_v = msg@;
    let mut msg_copy: Vec<u8> = Vec::new();
    push_all(&msg, &mut msg_copy);
    proof {
        assert(msg_copy@ =~= msg@);
    }
    let entry = log_entry_json(b_lvl_error(), msg_copy, now);
    let logs_arr = crate::json::arr_1(entry);
    let codej = Json::Num(code);
    let msgj = Json::Str(msg);
    proof {
        assert(codej@ == JsonV::Num(code_v));
        assert(msgj@ == JsonV::Str(msg_v));
    }
    let err_obj = crate::json::obj_2(b_code(), codej, b_message(), msgj);
    let idj = match id {
        Some(n) => json_u64(n),
        None => Json::Null,
    };
    proof {
        assert(idj@ == id_json(id));
    }
    let jr = Json::Str(b_two_zero());
    proof {
        assert(jr@ == JsonV::Str(k_two_zero()));
    }
    let outer = crate::json::obj_4(
        b_jsonrpc(),
        jr,
        b_id(),
        idj,
        b_error(),
        err_obj,
        b_logs(),
        logs_arr,
    );
    proof {
        let target = error_reply(id, code_v, msg_v, seq![log_entry(k_lvl_error(), msg_v, now)]);
        assert(outer@->Obj_0 =~~= target->Obj_0);
        assert(outer@ == target);
    }
    json_to_bytes(&outer)
}

/// Decides one incoming message at time `now`: an unreadable message or
/// an unknown method is answered at once with the matching error
/// envelope and one log entry; a `health_check` request asks the host
/// to check the configured server. The method is compared in its
/// document spelling: escape sequences inside the string are not
/// decoded first.
pub fn handle_message(message: &Vec<u8>, now: u64) -> (r: MessageAction)
    ensures
        ({
            match request_of_doc(message@) {
                None => r matches MessageAction::Reply(b) && b@ == ser_json(
                    error_reply(
                        None,
                        k_neg_32700(),
                        k_parse_fail_msg(),
                        seq![log_entry(k_lvl_error(), k_parse_fail_msg(), now)],
                    ),
                ),
                Some(req) => {
                    if req.method == k_health_check() {
                        r == MessageAction::CheckServer { id: req.id }
                    } else {
                        r matches MessageAction::Reply(b) && b@ == ser_json(
                            error_reply(
                                req.id,
                                k_neg_32601(),
                                k_unknown_method_prefix() + req.method,
                                seq![
                                    log_entry(
                                        k_lvl_error(),
                                        k_unknown_method_prefix() + req.method,
                                        now,
                                    ),
                                ],
                            ),
                        )
                    }
                },
            }
        }),
{
    let doc = match parse_json(message) {
        None => {
            return MessageAction::Reply(
                error_reply_bytes(None, b_neg_32700(), b_parse_fail_msg(), now),
            );
        },
        Some(d) => d,
    };
    match read_request(&doc) {
        None => MessageAction::Reply(
            error_reply_bytes(None, b_neg_32700(), b_parse_fail_msg(), now),
        ),
        Some(p) => {
            let method = p.0;
            let id = p.1;
            if bytes_eq(method, &b_health_check()) {
                MessageAction::CheckServer { id }
            } else {
                let mut msg = b_unknown_method_prefix();
                push_all(method, &mut msg);
                proof {
                    assert(msg@ =~= k_unknown_method_prefix() + method@);
                }
                MessageAction::Reply(error_reply_bytes(id, b_neg_32601(), msg, now))
            }
        },
    }
}

/// The reply to a `health_check` message, given what the server check
/// found, the module uptime, and the two log timestamps.
pub open spec fn health_reply(
    id: Option<u64>,
    healthy: bool,
    uptime: u64,
    t1: u64,
    t2: u64,
) -> JsonV {
    let word = if healthy {
        k_healthy()
    } else {
        k_unhealthy()
    };
    JsonV::Obj(
        seq![
            (k_jsonrpc(), JsonV::Str(k_two_zero())),
            (k_id(), id_json(id)),
            (
                k_result(),
                JsonV::Obj(
                    seq![
                        (k_status(), JsonV::Str(word)),
                        (k_uptime(), num_u64(uptime)),
                        (k_version(), JsonV::Str(k_lib_version())),
                    ],
                ),
            ),
            (
                k_logs(),
                JsonV::Arr(
                    seq![
                        log_entry(k_lvl_info(), k_processing_health_check(), t1),
                        log_entry(k_lvl_info(), k_health_response_prefix() + word, t2),
                    ],
                ),
            ),
        ],
    )
}

/// Builds and serializes the reply to a `health_check` message.
pub fn health_check_reply(id: Option<u64>, healthy: bool, uptime: u64, t1: u64, t2: u64) -> (r:
    Vec<u8>)
    ensures
        r@ == ser_json(health_reply(id, healthy, uptime, t1, t2)),
{
    let word = if healthy {
        b_healthy()
    } else {
        b_unhealthy()
    };
    let ghost word_v = word@;
    let mut word2: Vec<u8> = Vec::new();
    push_all(&word, &mut word2);
    proof {
        assert(word2@ =~= word@);
    }
    let sv = Json::Str(word);
    let uv = json_u64(uptime);
    let vv = Json::Str(b_lib_version());
    proof {
        assert(sv@ == JsonV::Str(word_v));
        assert(vv@ == JsonV::Str(k_lib_version()));
    }
    let result_obj = crate::json::obj_3(b_status(), sv, b_uptime(), uv, b_version(), vv);
    let mut msg2: Vec<u8> = b_health_response_prefix();
    push_all(&word2, &mut msg2);
    proof {
        assert(msg2@ =~= k_health_response_prefix() + word_v);
    }
    let e1 = log_entry_json(b_lvl_info(), b_processing_health_check(), t1);
    let e2 = log_entry_json(b_lvl_info(), msg2, t2);
    let logs_arr = crate::json::arr_2(e1, e2);
    let idj = match id {
        Some(n) => json_u64(n),
        None => Json::Null,
    };
    proof {
        assert(idj@ == id_json(id));
    }
    let jr = Json::Str(b_two_zero());
    proof {
        assert(jr@ == JsonV::Str(k_two_zero()));
    }
    let outer = crate::json::obj_4(
        b_jsonrpc(),
        jr,
        b_id(),
        idj,
        b_result(),
        result_obj,
        b_logs(),
        logs_arr,
    );
    proof {
        let target = health_reply(id, healthy, uptime, t1, t2);
        assert(outer@->Obj_0 =~~= target->Obj_0);
        assert(outer@ == target);
    }
    json_to_bytes(&outer)
}


// ------------------------------------------------------------------
// Tool listing and invocation.
// ------------------------------------------------------------------

/// The headers of a request that may carry a session: content type
/// always, and the session header exactly when a session id is known.
pub open spec fn session_headers(sess: Option<Seq<u8>>) -> Seq<(Seq<u8>, Seq<u8>)> {
    match sess {
        Some(s) => seq![
            (k_content_type(), k_application_json()),
            (crate::strs::k_mcp_session_id(), s),
        ],
        None => seq![(k_content_type(), k_application_json())],
    }
}

/// Plans a POST whose headers carry the session id the registry holds
/// for `url`, when it holds one.
fn plan_with_session(body: Vec<u8>, registry: &McpServerRegistry, url: &Vec<u8>) -> (r:
    RequestPlan)
    ensures
        r@.body == body@,
        r@.headers == session_headers(session_of(registry@.servers, url@)),
{
    let ghost bv = body@;
    let mut headers: Vec<(Vec<u8>, Vec<u8>)> = Vec::new();
    headers.push((b_content_type(), b_application_json()));
    match registry.get(url) {
        Some(srv) => match &srv.session_id {
            Some(s) => {
                let mut sid: Vec<u8> = Vec::new();
                push_all(s, &mut sid);
                proof {
                    assert(sid@ =~= s@);
                }
                headers.push((crate::strs::b_mcp_session_id(), sid));
            },
            None => {},
        },
        None => {},
    }
    let r = RequestPlan { body, headers };
    proof {
        assert(r@.headers =~~= session_headers(session_of(registry@.servers, url@)));
    }
    r
}

/// Builds the `tools/list` request for `url`: empty parameters, and
/// the session header when the registry holds a session id for that
/// URL.
pub fn list_tools_request(registry: &McpServerRegistry, url: &Vec<u8>, id: u64) -> (r:
    RequestPlan)
    ensures
        r@.body == req_bytes(
            crate::strs::k_tools_list(),
            Some(JsonV::Obj(Seq::empty())),
            Some(id),
        ),
        r@.headers == session_headers(session_of(registry@.servers, url@)),
{
    let body = build_request(&crate::strs::b_tools_list(), Some(crate::json::obj_0()), Some(id));
    plan_with_session(body, registry, url)
}

/// Builds the `tools/list` request aimed at the configured server. It
/// is the same request as [`list_tools_request`]: empty parameters,
/// and the session header when the registry holds one for the URL.
pub fn query_tools_request(registry: &McpServerRegistry, url: &Vec<u8>, id: u64) -> (r:
    RequestPlan)
    ensures
        r@.body == req_bytes(
            crate::strs::k_tools_list(),
            Some(JsonV::Obj(Seq::empty())),
            Some(id),
        ),
        r@.headers == session_headers(session_of(registry@.servers, url@)),
{
    list_tools_request(registry, url, id)
}

/// The `params` member of a tool invocation: the tool's name and its
/// arguments as given.
pub open spec fn call_tool_params(name: Seq<u8>, args: JsonV) -> JsonV {
    JsonV::Obj(
        seq![
            (crate::strs::k_name(), JsonV::Str(crate::bytes::escape_bytes(name))),
            (crate::strs::k_arguments(), args),
        ],
    )
}

/// Builds the `tools/call` request for `url`, with the session header
/// when the registry holds a session id for that URL.
pub fn call_tool_request(
    registry: &McpServerRegistry,
    url: &Vec<u8>,
    tool_name: &Vec<u8>,
    args: Json,
    id: u64,
) -> (r: RequestPlan)
    ensures
        r@.body == req_bytes(
            crate::strs::k_tools_call(),
            Some(call_tool_params(tool_name@, args@)),
            Some(id),
        ),
        r@.headers == session_headers(session_of(registry@.servers, url@)),
{
    let ghost av = args@;
    let namej = crate::rpc::json_string_of(tool_name);
    let params = crate::json::obj_2(
        crate::strs::b_name(),
        namej,
        crate::strs::b_arguments(),
        args,
    );
    proof {
        assert(params@ == call_tool_params(tool_name@, av));
    }
    let body = build_request(&crate::strs::b_tools_call(), Some(params), Some(id));
    plan_with_session(body, registry, url)
}

/// The error member of a response, re-serialized: the code in decimal,
/// the message, and the data or `null`.
pub open spec fn error_json(e: RpcErrorV) -> JsonV {
    JsonV::Obj(
        seq![
            (k_code(), JsonV::Num(crate::bytes::dec_of_i32(e.code))),
            (k_message(), JsonV::Str(e.message)),
            (
                crate::strs::k_data(),
                match e.data {
                    Some(d) => d,
                    None => JsonV::Null,
                },
            ),
        ],
    )
}

/// Why a tool listing for one server failed.
#[derive(Debug)]
pub enum ListToolsError {
    /// The request never produced a response.
    Transport,
    /// The response had a status outside the success range.
    Http,
    /// The body was not a well-formed JSON-RPC response.
    Parse,
    /// The envelope carried neither `result` nor `error`.
    NoResultOrError,
}

impl ListToolsError {
    /// The diagnostic text of this error.
    pub fn message(&self) -> (r: Vec<u8>)
        ensures
            r@ == match self {
                ListToolsError::Transport => crate::strs::k_connect_fail(),
                ListToolsError::Http => crate::strs::k_http_error_response(),
                ListToolsError::Parse => crate::strs::k_parse_tools_fail(),
                ListToolsError::NoResultOrError => crate::strs::k_no_result_or_error(),
            },
    {
        match self {
            ListToolsError::Transport => crate::strs::b_connect_fail(),
            ListToolsError::Http => crate::strs::b_http_error_response(),
            ListToolsError::Parse => crate::strs::b_parse_tools_fail(),
            ListToolsError::NoResultOrError => crate::strs::b_no_result_or_error(),
        }
    }
}

/// Serializes `{"<key>": v}` for a borrowed value, without copying it.
fn wrap_single(key: &Vec<u8>, Ghost(keyk): Ghost<Seq<u8>>, v: &Json) -> (r: Vec<u8>)
    requires
        key@ == keyk,
    ensures
        r@ == ser_json(JsonV::Obj(seq![(keyk, v@)])),
{
    let mut out: Vec<u8> = Vec::new();
    out.push(123);
    out.push(crate::bytes::QUOTE);
    push_all(key, &mut out);
    out.push(crate::bytes::QUOTE);
    out.push(58);
    crate::json::write_json(v, &mut out);
    out.push(125);
    proof {
        let ms = seq![(keyk, v@)];
        assert(crate::json::ser_members_from(ms, 0) =~= seq![crate::bytes::QUOTE] + keyk + seq![
            crate::bytes::QUOTE,
            58u8,
        ] + ser_json(v@));
        assert(out@ =~= ser_json(JsonV::Obj(ms)));
    }
    out
}

/// Serializes the error member of a response without copying its data.
fn error_member_bytes(e: &crate::rpc::ErrorParts<'_>) -> (r: Vec<u8>)
    ensures
        r@ == ser_json(
            error_json(
                RpcErrorV {
                    code: e.code as int,
                    message: e.message@,
                    data: crate::rpc::opt_view(e.data),
                },
            ),
        ),
{
    let ghost ev = RpcErrorV {
        code: e.code as int,
        message: e.message@,
        data: crate::rpc::opt_view(e.data),
    };
    let mut out: Vec<u8> = Vec::new();
    out.push(123);
    out.push(crate::bytes::QUOTE);
    push_all(&b_code(), &mut out);
    out.push(crate::bytes::QUOTE);
    out.push(58);
    crate::bytes::push_i32_dec(e.code, &mut out);
    out.push(44);
    out.push(crate::bytes::QUOTE);
    push_all(&b_message(), &mut out);
    out.push(crate::bytes::QUOTE);
    out.push(58);
    out.push(crate::bytes::QUOTE);
    push_all(e.message, &mut out);
    out.push(crate::bytes::QUOTE);
    out.push(44);
    out.push(crate::bytes::QUOTE);
    push_all(&crate::strs::b_data(), &mut out);
    out.push(crate::bytes::QUOTE);
    out.push(58);
    match e.data {
        Some(d) => {
            crate::json::write_json(d, &mut out);
        },
        None => {
            let mut nl: Vec<u8> = Vec::new();
            crate::json::write_json(&Json::Null, &mut nl);
            push_all(&nl, &mut out);
        },
    }
    out.push(125);
    proof {
        let ms = error_json(ev)->Obj_0;
        assert(crate::json::ser_members_from(ms, 2) =~= seq![crate::bytes::QUOTE]
            + crate::strs::k_data() + seq![crate::bytes::QUOTE, 58u8] + ser_json(ms[2].1));
        assert(crate::json::ser_members_from(ms, 1) =~= seq![crate::bytes::QUOTE] + k_message()
            + seq![crate::bytes::QUOTE, 58u8] + ser_json(JsonV::Str(e.message@)) + seq![44u8]
            + crate::json::ser_members_from(ms, 2));
        assert(crate::json::ser_members_from(ms, 0) =~= seq![crate::bytes::QUOTE] + k_code()
            + seq![crate::bytes::QUOTE, 58u8] + ser_json(
            JsonV::Num(crate::bytes::dec_of_i32(e.code as int)),
        ) + seq![44u8] + crate::json::ser_members_from(ms, 1));
        assert(out@ =~= ser_json(error_json(ev)));
    }
    out
}

/// Reads a transport outcome as the result of a tool listing for one
/// server: the `result` member wrapped as `{"result": ...}`, the
/// `error` member wrapped as `{"error": ...}`, or the reason neither
/// could be produced.
pub fn list_tools_result(outcome: &TransportResult) -> (r: Result<Vec<u8>, ListToolsError>)
    ensures
        ({
            match outcome@ {
                TransportResultV::Failure => r == Err::<Vec<u8>, ListToolsError>(
                    ListToolsError::Transport,
                ),
                TransportResultV::Response(h) => {
                    if !is_2xx(h.status) {
                        r == Err::<Vec<u8>, ListToolsError>(ListToolsError::Http)
                    } else {
                        match response_of_doc(h.body) {
                            None => r == Err::<Vec<u8>, ListToolsError>(ListToolsError::Parse),
                            Some(resp) => match resp.result {
                                Some(res) => r matches Ok(b) && b@ == ser_json(
                                    JsonV::Obj(seq![(k_result(), res)]),
                                ),
                                None => match resp.error {
                                    Some(e) => r matches Ok(b) && b@ == ser_json(
                                        JsonV::Obj(seq![(k_error(), error_json(e))]),
                                    ),
                                    None => r == Err::<Vec<u8>, ListToolsError>(
                                        ListToolsError::NoResultOrError,
                                    ),
                                },
                            },
                        }
                    }
                },
            }
        }),
{
    let h = match outcome {
        TransportResult::Failure => {
            return Err(ListToolsError::Transport);
        },
        TransportResult::Response(h) => h,
    };
    if !(200 <= h.status && h.status < 300) {
        return Err(ListToolsError::Http);
    }
    let doc = match parse_json(&h.body) {
        None => {
            return Err(ListToolsError::Parse);
        },
        Some(d) => d,
    };
    let parts = match read_response(&doc) {
        None => {
            return Err(ListToolsError::Parse);
        },
        Some(p) => p,
    };
    match parts.result {
        Some(res) => Ok(wrap_single(&b_result(), Ghost(k_result()), res)),
        None => match &parts.error {
            Some(e) => {
                let inner = error_member_bytes(e);
                let mut out: Vec<u8> = Vec::new();
                out.push(123);
                out.push(crate::bytes::QUOTE);
                push_all(&b_error(), &mut out);
                out.push(crate::bytes::QUOTE);
                out.push(58);
                push_all(&inner, &mut out);
                out.push(125);
                proof {
                    let ev = RpcErrorV {
                        code: e.code as int,
                        message: e.message@,
                        data: crate::rpc::opt_view(e.data),
                    };
                    let ms = seq![(k_error(), error_json(ev))];
                    assert(crate::json::ser_members_from(ms, 0) =~= seq![crate::bytes::QUOTE]
                        + k_error() + seq![crate::bytes::QUOTE, 58u8] + ser_json(error_json(ev)));
                    assert(out@ =~= ser_json(JsonV::Obj(ms)));
                }
                Ok(out)
            },
            None => Err(ListToolsError::NoResultOrError),
        },
    }
}


/// Reads a transport outcome as the result of the plain tool listing.
/// It is the same reading as [`list_tools_result`]: the `result` or
/// `error` member wrapped, or the reason neither could be produced.
pub fn query_tools_result(outcome: &TransportResult) -> (r: Result<Vec<u8>, ListToolsError>)
    ensures
        ({
            match outcome@ {
                TransportResultV::Failure => r == Err::<Vec<u8>, ListToolsError>(
                    ListToolsError::Transport,
                ),
                TransportResultV::Response(h) => {
                    if !is_2xx(h.status) {
                        r == Err::<Vec<u8>, ListToolsError>(ListToolsError::Http)
                    } else {
                        match response_of_doc(h.body) {
                            None => r == Err::<Vec<u8>, ListToolsError>(ListToolsError::Parse),
                            Some(resp) => match resp.result {
                                Some(res) => r matches Ok(b) && b@ == ser_json(
                                    JsonV::Obj(seq![(k_result(), res)]),
                                ),
                                None => match resp.error {
                                    Some(e) => r matches Ok(b) && b@ == ser_json(
                                        JsonV::Obj(seq![(k_error(), error_json(e))]),
                                    ),
                                    None => r == Err::<Vec<u8>, ListToolsError>(
                                        ListToolsError::NoResultOrError,
                                    ),
                                },
                            },
                        }
                    }
                },
            }
        }),
{
    list_tools_result(outcome)
}

/// Why a tool invocation failed.
#[derive(Debug)]
pub enum CallToolError {
    /// The request never produced a response.
    Transport,
    /// The response had a status outside the success range.
    Http,
    /// The body was not a well-formed JSON-RPC response.
    Parse,
    /// The envelope carried a JSON-RPC error object instead of a
    /// result; its code and message are surfaced.
    Rpc { code: i32, message: Vec<u8> },
}

impl CallToolError {
    /// The diagnostic text of this error.
    pub fn message(&self) -> (r: Vec<u8>)
        ensures
            r@ == match self {
                CallToolError::Transport => crate::strs::k_connect_fail(),
                CallToolError::Http => crate::strs::k_http_error_response(),
                CallToolError::Parse => crate::strs::k_parse_response_fail(),
                CallToolError::Rpc { code, message } => crate::strs::k_rpc_error_prefix()
                    + message@ + crate::strs::k_code_sep() + crate::bytes::dec_of_i32(code as int)
                    + crate::strs::k_close_paren(),
            },
    {
        match self {
            CallToolError::Transport => crate::strs::b_connect_fail(),
            CallToolError::Http => crate::strs::b_http_error_response(),
            CallToolError::Parse => crate::strs::b_parse_response_fail(),
            CallToolError::Rpc { code, message } => {
                let mut out = crate::strs::b_rpc_error_prefix();
                push_all(message, &mut out);
                let sep = crate::strs::b_code_sep();
                push_all(&sep, &mut out);
                crate::bytes::push_i32_dec(*code, &mut out);
                let paren = crate::strs::b_close_paren();
                push_all(&paren, &mut out);
                proof {
                    assert(out@ =~= crate::strs::k_rpc_error_prefix() + message@
                        + crate::strs::k_code_sep() + crate::bytes::dec_of_i32(*code as int)
                        + crate::strs::k_close_paren());
                }
                out
            },
        }
    }
}

/// Reads a transport outcome as the result of a tool invocation: the
/// serialized `result` member, the surfaced JSON-RPC error when the
/// envelope carries one instead, `null` when it carries neither, or
/// the reason nothing could be read.
pub fn call_tool_result(outcome: &TransportResult) -> (r: Result<Vec<u8>, CallToolError>)
    ensures
        ({
            match outcome@ {
                TransportResultV::Failure => r == Err::<Vec<u8>, CallToolError>(
                    CallToolError::Transport,
                ),
                TransportResultV::Response(h) => {
                    if !is_2xx(h.status) {
                        r == Err::<Vec<u8>, CallToolError>(CallToolError::Http)
                    } else {
                        match response_of_doc(h.body) {
                            None => r == Err::<Vec<u8>, CallToolError>(CallToolError::Parse),
                            Some(resp) => match resp.result {
                                Some(res) => r matches Ok(b) && b@ == ser_json(res),
                                None => match resp.error {
                                    Some(e) => r matches Err(
                                        CallToolError::Rpc { code, message },
                                    ) && code as int == e.code && message@ == e.message,
                                    None => r matches Ok(b) && b@ == ser_json(JsonV::Null),
                                },
                            },
                        }
                    }
                },
            }
        }),
{
    let h = match outcome {
        TransportResult::Failure => {
            return Err(CallToolError::Transport);
        },
        TransportResult::Response(h) => h,
    };
    if !(200 <= h.status && h.status < 300) {
        return Err(CallToolError::Http);
    }
    let doc = match parse_json(&h.body) {
        None => {
            return Err(CallToolError::Parse);
        },
        Some(d) => d,
    };
    let parts = match read_response(&doc) {
        None => {
            return Err(CallToolError::Parse);
        },
        Some(p) => p,
    };
    match parts.result {
        Some(res) => Ok(json_to_bytes(res)),
        None => match &parts.error {
            Some(e) => {
                let mut message: Vec<u8> = Vec::new();
                push_all(e.message, &mut message);
                proof {
                    assert(message@ =~= e.message@);
                }
                Err(CallToolError::Rpc { code: e.code, message })
            },
            None => Ok(json_to_bytes(&Json::Null)),
        },
    }
}


/// A planned tool request carries the `mcp-session-id` header exactly
/// when the registry holds a session id for the URL, and then carries
/// that id as the header's value.
pub proof fn lemma_session_header(sess: Option<Seq<u8>>)
    ensures
        crate::transport::header_of(session_headers(sess), crate::strs::k_mcp_session_id())
            == sess,
{
    let key = crate::strs::k_mcp_session_id();
    assert(k_content_type().len() == 12);
    assert(key.len() == 14);
    let hs = session_headers(sess);
    match sess {
        Some(s) => {
            assert(hs[0].0 != key);
            let rest = hs.subrange(1, hs.len() as int);
            assert(rest[0] == hs[1]);
            assert(rest.len() == 1);
            assert(crate::transport::header_of(rest, key) == Some(s));
        },
        None => {
            assert(hs[0].0 != key);
            let rest = hs.subrange(1, hs.len() as int);
            assert(rest.len() == 0);
        },
    }
}

} // verus!
