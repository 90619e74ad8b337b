//! The handshake: building the `initialize` exchange and reading a
//! server's answer into a record.
//!
//! `initialize` carries the protocol version, the client's capabilities
//! and its identity; the answer yields the server's name and version,
//! its tool catalog and an optional session id. A non-success status, an
//! unreadable body or a missing `result` member each fail the handshake
//! with their own error.
use vstd::prelude::*;

use crate::bytes::dec_of_u64;
use crate::json::{
    Json, JsonV, get_field, as_str, json_get, json_as_str, view_members, push_all, parse_json,
};
use crate::registry::{McpServer, McpServerV, McpTool, McpToolV, ServerStatus, view_tools};
use crate::rpc::{req_bytes, response_of_doc, read_response};
use crate::transport::{TransportResult, TransportResultV, RequestPlan, is_2xx};
use crate::strs::{
    k_initialize, k_protocol_version_key, k_protocol_version, k_capabilities, k_sampling, k_roots,
    k_client_info, k_name, k_version, k_client_name, k_lib_version, k_content_type,
    k_application_json, k_accept, k_accept_json_sse, k_accept_language, k_star, k_server_info,
    k_unknown_cap, k_unknown_lc, k_tools, k_description, k_notifications_initialized,
    k_mcp_session_id, k_connect_fail, k_status_prefix, k_close_paren, k_parse_handshake_fail,
    k_no_result_handshake, b_initialize, b_protocol_version_key, b_protocol_version,
    b_capabilities, b_sampling, b_roots, b_client_info, b_name, b_version, b_client_name,
    b_lib_version, b_content_type, b_application_json, b_accept, b_accept_json_sse,
    b_accept_language, b_star, b_server_info, b_unknown_cap, b_unknown_lc, b_tools, b_description,
    b_notifications_initialized, b_mcp_session_id, b_connect_fail, b_status_prefix, b_close_paren,
    b_parse_handshake_fail, b_no_result_handshake,
};

verus! {

/// The `params` member of the `initialize` request.
pub open spec fn handshake_params() -> JsonV {
    JsonV::Obj(
        seq![
            (k_protocol_version_key(), JsonV::Str(k_protocol_version())),
            (
                k_capabilities(),
                JsonV::Obj(
                    seq![
                        (k_sampling(), JsonV::Obj(Seq::empty())),
                        (k_roots(), JsonV::Arr(Seq::empty())),
                    ],
                ),
            ),
            (
                k_client_info(),
                JsonV::Obj(
                    seq![
                        (k_name(), JsonV::Str(k_client_name())),
                        (k_version(), JsonV::Str(k_lib_version())),
                    ],
                ),
            ),
        ],
    )
}

/// The headers of the `initialize` request.
pub open spec fn handshake_headers() -> Seq<(Seq<u8>, Seq<u8>)> {
    seq![
        (k_content_type(), k_application_json()),
        (k_accept(), k_accept_json_sse()),
        (k_accept_language(), k_star()),
    ]
}

/// Builds the `initialize` request for one handshake attempt.
pub fn handshake_request(id: u64) -> (r: RequestPlan)
    ensures
        r@.body == req_bytes(k_initialize(), Some(handshake_params()), Some(id)),
        r@.headers == handshake_headers(),
{
    let sampling = Json::Obj(Vec::new());
    let roots = Json::Arr(Vec::new());
    proof {
        broadcast use crate::json::lemma_view_members_len;
        broadcast use crate::json::lemma_view_members_index;
        broadcast use crate::json::lemma_view_elems_len;
        assert(sampling@->Obj_0 =~= Seq::<(Seq<u8>, JsonV)>::empty());
        assert(sampling@ =~~= JsonV::Obj(Seq::empty()));
        assert(roots@->Arr_0 =~= Seq::<JsonV>::empty());
        assert(roots@ =~~= JsonV::Arr(Seq::empty()));
    }
    let mut caps: Vec<(Vec<u8>, Json)> = Vec::new();
    caps.push((b_sampling(), sampling));
    caps.push((b_roots(), roots));
    let caps_obj = Json::Obj(caps);
    proof {
        broadcast use crate::json::lemma_view_members_len;
        broadcast use crate::json::lemma_view_members_index;
        let gc = caps_obj@->Obj_0;
        assert(gc.len() == 2);
        assert(gc[0].0 =~= k_sampling());
        assert(gc[0].1 == sampling@);
        assert(gc[0].1 =~~= JsonV::Obj(Seq::<(Seq<u8>, JsonV)>::empty()));
        assert(gc[0] =~~= (k_sampling(), JsonV::Obj(Seq::<(Seq<u8>, JsonV)>::empty())));
        assert(gc[1] =~~= (k_roots(), JsonV::Arr(Seq::<JsonV>::empty())));
        assert(gc =~~= seq![
            (k_sampling(), JsonV::Obj(Seq::<(Seq<u8>, JsonV)>::empty())),
            (k_roots(), JsonV::Arr(Seq::<JsonV>::empty())),
        ]);
        assert(caps_obj@ is Obj);
        assert(caps_obj@ == JsonV::Obj(gc));
    }
    let ghost caps_spec = caps_obj@;
    let cname = Json::Str(b_client_name());
    let cver = Json::Str(b_lib_version());
    proof {
        assert(cname@ == JsonV::Str(k_client_name()));
        assert(cver@ == JsonV::Str(k_lib_version()));
    }
    let mut client: Vec<(Vec<u8>, Json)> = Vec::new();
    client.push((b_name(), cname));
    client.push((b_version(), cver));
    let client_obj = Json::Obj(client);
    proof {
        broadcast use crate::json::lemma_view_members_len;
        broadcast use crate::json::lemma_view_members_index;
        let gl = client_obj@->Obj_0;
        assert(gl.len() == 2);
        assert(gl[0].0 =~= k_name());
        assert(gl[0].1 == JsonV::Str(k_client_name()));
        assert(gl[1].0 =~= k_version());
        assert(gl[1].1 == JsonV::Str(k_lib_version()));
        assert(gl =~~= seq![
            (k_name(), JsonV::Str(k_client_name())),
            (k_version(), JsonV::Str(k_lib_version())),
        ]);
        assert(client_obj@ is Obj);
        assert(client_obj@ == JsonV::Obj(gl));
    }
    let ghost client_spec = client_obj@;
    let pver = Json::Str(b_protocol_version());
    proof {
        assert(pver@ == JsonV::Str(k_protocol_version()));
    }
    let mut ps: Vec<(Vec<u8>, Json)> = Vec::new();
    ps.push((b_protocol_version_key(), pver));
    ps.push((b_capabilities(), caps_obj));
    ps.push((b_client_info(), client_obj));
    let params = Json::Obj(ps);
    proof {
        broadcast use crate::json::lemma_view_members_len;
        broadcast use crate::json::lemma_view_members_index;
        let gp = params@->Obj_0;
        assert(gp.len() == 3);
        assert(gp[0].0 =~= k_protocol_version_key());
        assert(gp[0].1 == JsonV::Str(k_protocol_version()));
        assert(gp[1].0 =~= k_capabilities());
        assert(gp[1].1 == caps_spec);
        assert(gp[2].0 =~= k_client_info());
        assert(gp[2].1 == client_spec);
        assert(gp =~~= handshake_params()->Obj_0);
        assert(params@ is Obj);
        assert(params@ == JsonV::Obj(gp));
        assert(params@ == handshake_params());
    }
    let body = crate::rpc::build_request(&b_initialize(), Some(params), Some(id));
    let mut headers: Vec<(Vec<u8>, Vec<u8>)> = Vec::new();
    headers.push((b_content_type(), b_application_json()));
    headers.push((b_accept(), b_accept_json_sse()));
    headers.push((b_accept_language(), b_star()));
    let r = RequestPlan { body, headers };
    proof {
        assert(r@.headers =~~= handshake_headers());
    }
    r
}

/// Builds the best-effort `notifications/initialized` request that
/// follows a handshake which yielded a session id.
pub fn initialized_notification(session_id: &Vec<u8>) -> (r: RequestPlan)
    ensures
        r@.body == req_bytes(k_notifications_initialized(), None, None),
        r@.headers == seq![
            (k_content_type(), k_application_json()),
            (k_mcp_session_id(), session_id@),
        ],
{
    let body = crate::rpc::build_request(&b_notifications_initialized(), None, None);
    let mut sid: Vec<u8> = Vec::new();
    push_all(session_id, &mut sid);
    proof {
        assert(sid@ =~= session_id@);
    }
    let mut headers: Vec<(Vec<u8>, Vec<u8>)> = Vec::new();
    headers.push((b_content_type(), b_application_json()));
    headers.push((b_mcp_session_id(), sid));
    let r = RequestPlan { body, headers };
    proof {
        assert(r@.headers =~~= seq![
            (k_content_type(), k_application_json()),
            (k_mcp_session_id(), session_id@),
        ]);
    }
    r
}

// ------------------------------------------------------------------
// Reading the handshake answer.
// ------------------------------------------------------------------

/// The server name the `result` member advertises, or "Unknown".
pub open spec fn spec_server_name(res: JsonV) -> Seq<u8> {
    match get_field(res, k_server_info()) {
        Some(si) => match get_field(si, k_name()) {
            Some(n) => match as_str(n) {
                Some(s) => s,
                None => k_unknown_cap(),
            },
            None => k_unknown_cap(),
        },
        None => k_unknown_cap(),
    }
}

/// The server version the `result` member advertises, or "unknown".
pub open spec fn spec_server_version(res: JsonV) -> Seq<u8> {
    match get_field(res, k_server_info()) {
        Some(si) => match get_field(si, k_version()) {
            Some(n) => match as_str(n) {
                Some(s) => s,
                None => k_unknown_lc(),
            },
            None => k_unknown_lc(),
        },
        None => k_unknown_lc(),
    }
}

/// The tool a member of `capabilities.tools` describes: the key is the
/// tool's name; description and version come from its value with their
/// defaults, and no parameters are carried.
pub open spec fn tool_of_member(m: (Seq<u8>, JsonV)) -> McpToolV {
    McpToolV {
        name: m.0,
        description: match get_field(m.1, k_description()) {
            Some(d) => match as_str(d) {
                Some(s) => s,
                None => Seq::empty(),
            },
            None => Seq::empty(),
        },
        version: match get_field(m.1, k_version()) {
            Some(v) => match as_str(v) {
                Some(s) => s,
                None => k_unknown_lc(),
            },
            None => k_unknown_lc(),
        },
        parameters: Seq::empty(),
    }
}

/// The tool catalog the `result` member advertises: one tool per member
/// of `capabilities.tools` when that is an object, else empty.
pub open spec fn spec_tools_of(res: JsonV) -> Seq<McpToolV> {
    match get_field(res, k_capabilities()) {
        Some(c) => match get_field(c, k_tools()) {
            Some(t) => match t {
                JsonV::Obj(ms) => Seq::new(ms.len(), |i: int| tool_of_member(ms[i])),
                _ => Seq::empty(),
            },
            None => Seq::empty(),
        },
        None => Seq::empty(),
    }
}

/// The record a successful handshake answer yields.
pub open spec fn handshake_record(
    url: Seq<u8>,
    res: JsonV,
    session_id: Option<Seq<u8>>,
    now: u64,
) -> McpServerV {
    McpServerV {
        url: url,
        name: spec_server_name(res),
        version: spec_server_version(res),
        status: ServerStatus::Connected,
        tools: spec_tools_of(res),
        last_health_check: now,
        session_id: session_id,
    }
}

/// Why a handshake failed.
#[derive(Debug)]
pub enum HandshakeError {
    /// The request produced no response at all.
    Transport,
    /// The response had a status outside the success range.
    HttpStatus(u16),
    /// The body was not a well-formed JSON-RPC response.
    Parse,
    /// The response carried no `result` member.
    NoResult,
}

/// The diagnostic text of each handshake error.
pub open spec fn handshake_error_msg(e: HandshakeError) -> Seq<u8> {
    match e {
        HandshakeError::Transport => k_connect_fail(),
        HandshakeError::HttpStatus(s) => k_status_prefix() + dec_of_u64(s as u64)
            + k_close_paren(),
        HandshakeError::Parse => k_parse_handshake_fail(),
        HandshakeError::NoResult => k_no_result_handshake(),
    }
}

impl HandshakeError {
    /// The diagnostic text of this error.
    pub fn message(&self) -> (r: Vec<u8>)
        ensures
            r@ == handshake_error_msg(*self),
    {
        match self {
            HandshakeError::Transport => b_connect_fail(),
            HandshakeError::HttpStatus(s) => {
                let mut out = b_status_prefix();
                crate::bytes::push_u64_dec(*s as u64, &mut out);
                let paren = b_close_paren();
                push_all(&paren, &mut out);
                proof {
                    assert(out@ =~= k_status_prefix() + dec_of_u64(*s as u64) + k_close_paren());
                }
                out
            },
            HandshakeError::Parse => b_parse_handshake_fail(),
            HandshakeError::NoResult => b_no_result_handshake(),
        }
    }
}

/// Extracts the advertised server name.
fn extract_server_name(res: &Json) -> (r: Vec<u8>)
    ensures
        r@ == spec_server_name(res@),
{
    match json_get(res, &b_server_info()) {
        Some(si) => match json_get(si, &b_name()) {
            Some(n) => match json_as_str(n) {
                Some(s) => {
                    let mut out: Vec<u8> = Vec::new();
                    push_all(s, &mut out);
                    proof {
                        assert(out@ =~= s@);
                    }
                    out
                },
                None => b_unknown_cap(),
            },
            None => b_unknown_cap(),
        },
        None => b_unknown_cap(),
    }
}

/// Extracts the advertised server version.
fn extract_server_version(res: &Json) -> (r: Vec<u8>)
    ensures
        r@ == spec_server_version(res@),
{
    match json_get(res, &b_server_info()) {
        Some(si) => match json_get(si, &b_version()) {
            Some(n) => match json_as_str(n) {
                Some(s) => {
                    let mut out: Vec<u8> = Vec::new();
                    push_all(s, &mut out);
                    proof {
                        assert(out@ =~= s@);
                    }
                    out
                },
                None => b_unknown_lc(),
            },
            None => b_unknown_lc(),
        },
        None => b_unknown_lc(),
    }
}

/// Extracts one tool from a member of `capabilities.tools`.
fn extract_tool(key: &Vec<u8>, info: &Json) -> (r: McpTool)
    ensures
        r@ == tool_of_member((key@, info@)),
{
    let mut name: Vec<u8> = Vec::new();
    push_all(key, &mut name);
    proof {
        assert(name@ =~= key@);
    }
    let description = match json_get(info, &b_description()) {
        Some(d) => match json_as_str(d) {
            Some(s) => {
                let mut out: Vec<u8> = Vec::new();
                push_all(s, &mut out);
                proof {
                    assert(out@ =~= s@);
                }
                out
            },
            None => Vec::new(),
        },
        None => Vec::new(),
    };
    let version = match json_get(info, &b_version()) {
        Some(v) => match json_as_str(v) {
            Some(s) => {
                let mut out: Vec<u8> = Vec::new();
                push_all(s, &mut out);
                proof {
                    assert(out@ =~= s@);
                }
                out
            },
            None => b_unknown_lc(),
        },
        None => b_unknown_lc(),
    };
    let r = McpTool { name, description, version, parameters: Vec::new() };
    proof {
        assert(r@.parameters =~= Seq::<crate::registry::ToolParameterV>::empty());
    }
    r
}

/// Extracts the advertised tool catalog.
fn extract_tools(res: &Json) -> (r: Vec<McpTool>)
    ensures
        view_tools(r@) == spec_tools_of(res@),
{
    let caps = match json_get(res, &b_capabilities()) {
        Some(c) => c,
        None => {
            let out: Vec<McpTool> = Vec::new();
            proof {
                assert(view_tools(out@) =~= spec_tools_of(res@));
            }
            return out;
        },
    };
    let tools_v = match json_get(caps, &b_tools()) {
        Some(t) => t,
        None => {
            let out: Vec<McpTool> = Vec::new();
            proof {
                assert(view_tools(out@) =~= spec_tools_of(res@));
            }
            return out;
        },
    };
    match tools_v {
        Json::Obj(ms) => {
            let ghost msv = view_members(ms@);
            let mut out: Vec<McpTool> = Vec::new();
            let mut i: usize = 0;
            while i < ms.len()
                invariant
                    i <= ms@.len(),
                    msv == view_members(ms@),
                    out@.len() == i,
                    forall|j: int| 0 <= j < i ==> out@[j]@ == tool_of_member(msv[j]),
                decreases ms@.len() - i,
            {
                let t = extract_tool(&ms[i].0, &ms[i].1);
                proof {
                    assert(msv[i as int] == (ms@[i as int].0@, crate::json::view_json(
                        ms@[i as int].1,
                    )));
                }
                out.push(t);
                i = i + 1;
            }
            proof {
                assert(spec_tools_of(res@) == Seq::new(msv.len(), |k: int| tool_of_member(msv[k])));
                assert(view_tools(out@) =~= spec_tools_of(res@));
            }
            out
        },
        _ => {
            let out: Vec<McpTool> = Vec::new();
            proof {
                assert(view_tools(out@) =~= spec_tools_of(res@));
            }
            out
        },
    }
}

/// Reads one transport outcome as the result of a handshake with `url`
/// at time `now`: the record a success yields, or the reason it failed.
pub fn interpret_handshake(url: &Vec<u8>, outcome: &TransportResult, now: u64) -> (r: Result<
    McpServer,
    HandshakeError,
>)
    ensures
        ({
            match outcome@ {
                TransportResultV::Failure => r == Err::<McpServer, HandshakeError>(
                    HandshakeError::Transport,
                ),
                TransportResultV::Response(h) => {
                    if !is_2xx(h.status) {
                        r == Err::<McpServer, HandshakeError>(HandshakeError::HttpStatus(h.status))
                    } else {
                        match response_of_doc(h.body) {
                            None => r == Err::<McpServer, HandshakeError>(HandshakeError::Parse),
                            Some(resp) => match resp.result {
                                None => r == Err::<McpServer, HandshakeError>(
                                    HandshakeError::NoResult,
                                ),
                                Some(res) => match r {
                                    Ok(server) => server@ == handshake_record(
                                        url@,
                                        res,
                                        h.session_id,
                                        now,
                                    ),
                                    Err(_) => false,
                                },
                            },
                        }
                    }
                },
            }
        }),
{
    let h = match outcome {
        TransportResult::Failure => {
            return Err(HandshakeError::Transport);
        },
        TransportResult::Response(h) => h,
    };
    if !(200 <= h.status && h.status < 300) {
        return Err(HandshakeError::HttpStatus(h.status));
    }
    let doc = match parse_json(&h.body) {
        None => {
            return Err(HandshakeError::Parse);
        },
        Some(d) => d,
    };
    let parts = match read_response(&doc) {
        None => {
            return Err(HandshakeError::Parse);
        },
        Some(p) => p,
    };
    let res = match parts.result {
        None => {
            return Err(HandshakeError::NoResult);
        },
        Some(r) => r,
    };
    let mut url_copy: Vec<u8> = Vec::new();
    push_all(url, &mut url_copy);
    proof {
        assert(url_copy@ =~= url@);
    }
    let session_id: Option<Vec<u8>> = match &h.session_id {
        Some(s) => {
            let mut out: Vec<u8> = Vec::new();
            push_all(s, &mut out);
            proof {
                assert(out@ =~= s@);
            }
            Some(out)
        },
        None => None,
    };
    let server = McpServer {
        url: url_copy,
        name: extract_server_name(res),
        version: extract_server_version(res),
        status: ServerStatus::Connected,
        tools: extract_tools(res),
        last_health_check: now,
        session_id,
    };
    Ok(server)
}


/// A successful handshake never yields an empty server name or version
/// unless the server itself advertised an empty string: the fallbacks
/// are never empty, so emptiness can only be copied from the answer.
pub proof fn lemma_handshake_fields_nonempty(res: JsonV)
    requires
        match get_field(res, k_server_info()) {
            Some(si) => match get_field(si, k_name()) {
                Some(n) => match as_str(n) {
                    Some(s) => s.len() > 0,
                    None => true,
                },
                None => true,
            },
            None => true,
        },
        match get_field(res, k_server_info()) {
            Some(si) => match get_field(si, k_version()) {
                Some(v) => match as_str(v) {
                    Some(s) => s.len() > 0,
                    None => true,
                },
                None => true,
            },
            None => true,
        },
    ensures
        spec_server_name(res).len() > 0,
        spec_server_version(res).len() > 0,
{
    assert(k_unknown_cap().len() == 7);
    assert(k_unknown_lc().len() == 7);
}


/// Each literal used inside the initialize parameters is well-formed
/// string contents: all are plain printable bytes without quotes or
/// backslashes.
proof fn lemma_handshake_literals_wf()
    ensures
        crate::json::wf_str_content(k_initialize()),
        crate::json::wf_str_content(k_protocol_version_key()),
        crate::json::wf_str_content(k_protocol_version()),
        crate::json::wf_str_content(k_capabilities()),
        crate::json::wf_str_content(k_sampling()),
        crate::json::wf_str_content(k_roots()),
        crate::json::wf_str_content(k_client_info()),
        crate::json::wf_str_content(k_name()),
        crate::json::wf_str_content(k_version()),
        crate::json::wf_str_content(k_client_name()),
        crate::json::wf_str_content(k_lib_version()),
{
    crate::json::lemma_plain_wf(k_initialize());
    crate::json::lemma_plain_wf(k_protocol_version_key());
    crate::json::lemma_plain_wf(k_protocol_version());
    crate::json::lemma_plain_wf(k_capabilities());
    crate::json::lemma_plain_wf(k_sampling());
    crate::json::lemma_plain_wf(k_roots());
    crate::json::lemma_plain_wf(k_client_info());
    crate::json::lemma_plain_wf(k_name());
    crate::json::lemma_plain_wf(k_version());
    crate::json::lemma_plain_wf(k_client_name());
    crate::json::lemma_plain_wf(k_lib_version());
}

/// The body of every initialize request parses back to its envelope:
/// what goes out over the handshake is a well-formed document.
pub proof fn lemma_handshake_request_readable(id: u64)
    ensures
        crate::json::spec_json(req_bytes(k_initialize(), Some(handshake_params()), Some(id)))
            == Some(crate::rpc::req_envelope(k_initialize(), Some(handshake_params()), Some(id))),
{
    lemma_handshake_literals_wf();
    let p = handshake_params();
    assert(crate::json::wf_json(p)) by {
        reveal_with_fuel(crate::json::wf_json, 8);
        reveal_with_fuel(crate::json::wf_members_from, 8);
        lemma_handshake_literals_wf();
    }
    crate::rpc::lemma_req_bytes_readable(k_initialize(), Some(p), Some(id));
}

} // verus!
