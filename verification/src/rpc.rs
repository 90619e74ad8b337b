//! JSON-RPC envelopes: the shape of requests and responses, how they are
//! read out of a JSON value, and how outgoing envelopes are built.
//!
//! A well-formed request holds a `jsonrpc` string, a `method` string, an
//! optional `params` value and an optional numeric `id`; a `null` id or
//! params counts as absent. A well-formed response holds a `jsonrpc`
//! string, an optional numeric `id`, an optional `result` and an optional
//! `error` object with an integer `code` within `i32` and a string
//! `message`.
use vstd::prelude::*;

use crate::bytes::{int_of_dec, u64_of_dec, dec_of_u64, parse_i32_dec, parse_u64_dec};
use crate::json::{
    Json, JsonV, get_field, as_str, as_num, json_get, json_as_str, json_as_num,
    view_members, spec_json,
};
use crate::strs::{
    k_two_zero, b_two_zero,
    k_jsonrpc, k_method, k_params, k_id, k_result, k_error, k_code, k_message, k_data,
    b_jsonrpc, b_method, b_params, b_id, b_result, b_error, b_code, b_message, b_data,
};

verus! {

/// Model of a well-formed JSON-RPC request.
#[verifier::ext_equal]
pub struct RpcRequestV {
    pub jsonrpc: Seq<u8>,
    pub method: Seq<u8>,
    pub params: Option<JsonV>,
    pub id: Option<u64>,
}

/// Model of the error member of a response.
#[verifier::ext_equal]
pub struct RpcErrorV {
    pub code: int,
    pub message: Seq<u8>,
    pub data: Option<JsonV>,
}

/// Model of a well-formed JSON-RPC response.
#[verifier::ext_equal]
pub struct RpcResponseV {
    pub id: Option<u64>,
    pub result: Option<JsonV>,
    pub error: Option<RpcErrorV>,
}

/// An optional field read as "present and not null": a missing binding
/// and a `null` binding both count as absent.
pub open spec fn field_or_null(v: JsonV, key: Seq<u8>) -> Option<JsonV> {
    match get_field(v, key) {
        None => None,
        Some(f) => if f is Null {
            None
        } else {
            Some(f)
        },
    }
}

/// The `id` member: absent or `null` is no id; otherwise it must be a
/// number whose lexeme denotes a `u64`. `Some(None)` is a valid absent
/// id, `None` an ill-formed one.
pub open spec fn id_of(v: JsonV, key: Seq<u8>) -> Option<Option<u64>> {
    match get_field(v, key) {
        None => Some(None),
        Some(f) => match f {
            JsonV::Null => Some(None),
            JsonV::Num(lex) => match u64_of_dec(lex) {
                Some(n) => Some(Some(n)),
                None => None,
            },
            _ => None,
        },
    }
}

/// The request a JSON value holds, when well formed.
pub open spec fn rpc_request_of(v: JsonV) -> Option<RpcRequestV> {
    if !(v is Obj) {
        None
    } else {
        match (get_field(v, k_jsonrpc()), get_field(v, k_method())) {
            (Some(jr), Some(me)) => match (as_str(jr), as_str(me)) {
                (Some(jrs), Some(mes)) => match id_of(v, k_id()) {
                    Some(i) => Some(
                        RpcRequestV {
                            jsonrpc: jrs,
                            method: mes,
                            params: field_or_null(v, k_params()),
                            id: i,
                        },
                    ),
                    None => None,
                },
                _ => None,
            },
            _ => None,
        }
    }
}

/// The error object a JSON value holds, when well formed.
pub open spec fn rpc_error_of(v: JsonV) -> Option<RpcErrorV> {
    if !(v is Obj) {
        None
    } else {
        match (get_field(v, k_code()), get_field(v, k_message())) {
            (Some(c), Some(m)) => match (as_num(c), as_str(m)) {
                (Some(clex), Some(msg)) => match int_of_dec(clex) {
                    Some(code) => if -0x8000_0000 <= code < 0x8000_0000 {
                        Some(RpcErrorV { code, message: msg, data: field_or_null(v, k_data()) })
                    } else {
                        None
                    },
                    None => None,
                },
                _ => None,
            },
            _ => None,
        }
    }
}

/// The response a JSON value holds, when well formed.
pub open spec fn rpc_response_of(v: JsonV) -> Option<RpcResponseV> {
    if !(v is Obj) {
        None
    } else {
        match get_field(v, k_jsonrpc()) {
            Some(jr) => match as_str(jr) {
                Some(_) => match id_of(v, k_id()) {
                    Some(i) => {
                        let res = field_or_null(v, k_result());
                        match get_field(v, k_error()) {
                            None => Some(RpcResponseV { id: i, result: res, error: None }),
                            Some(e) => if e is Null {
                                Some(RpcResponseV { id: i, result: res, error: None })
                            } else {
                                match rpc_error_of(e) {
                                    Some(err) => Some(
                                        RpcResponseV { id: i, result: res, error: Some(err) },
                                    ),
                                    None => None,
                                }
                            },
                        }
                    },
                    None => None,
                },
                None => None,
            },
            None => None,
        }
    }
}

/// The response a whole document holds: parsed, then read as an
/// envelope.
pub open spec fn response_of_doc(s: Seq<u8>) -> Option<RpcResponseV> {
    match spec_json(s) {
        Some(v) => rpc_response_of(v),
        None => None,
    }
}

/// The model of an optional borrowed value.
pub open spec fn opt_view(o: Option<&Json>) -> Option<JsonV> {
    match o {
        Some(x) => Some(x@),
        None => None,
    }
}

/// Borrowed view of a response's error member.
pub struct ErrorParts<'a> {
    pub code: i32,
    pub message: &'a Vec<u8>,
    pub data: Option<&'a Json>,
}

/// Borrowed view of a parsed response.
pub struct ResponseParts<'a> {
    pub id: Option<u64>,
    pub result: Option<&'a Json>,
    pub error: Option<ErrorParts<'a>>,
}

impl<'a> ResponseParts<'a> {
    /// The model this borrowed view stands for.
    pub open spec fn model(self) -> RpcResponseV {
        RpcResponseV {
            id: self.id,
            result: opt_view(self.result),
            error: match self.error {
                None => None,
                Some(e) => Some(
                    RpcErrorV {
                        code: e.code as int,
                        message: e.message@,
                        data: opt_view(e.data),
                    },
                ),
            },
        }
    }
}

/// Reads an optional member, treating `null` as absent.
fn get_field_or_null<'a>(j: &'a Json, key: &Vec<u8>) -> (r: Option<&'a Json>)
    ensures
        opt_view(r) == field_or_null(j@, key@),
{
    match json_get(j, key) {
        None => None,
        Some(f) => match f {
            Json::Null => None,
            _ => Some(f),
        },
    }
}

/// Reads the `id` member.
fn get_id(j: &Json, key: &Vec<u8>) -> (r: Option<Option<u64>>)
    ensures
        match r {
            Some(i) => id_of(j@, key@) == Some(i),
            None => id_of(j@, key@) is None,
        },
{
    match json_get(j, key) {
        None => Some(None),
        Some(f) => match f {
            Json::Null => Some(None),
            Json::Num(lex) => match parse_u64_dec(lex) {
                Some(n) => Some(Some(n)),
                None => None,
            },
            _ => None,
        },
    }
}

/// Reads a parsed JSON value as a request, returning its method and id;
/// the params member needs no further reading here.
pub fn read_request<'a>(j: &'a Json) -> (r: Option<(&'a Vec<u8>, Option<u64>)>)
    ensures
        match r {
            Some(p) => match rpc_request_of(j@) {
                Some(req) => req.method == p.0@ && req.id == p.1,
                None => false,
            },
            None => rpc_request_of(j@) is None,
        },
{
    if !(matches!(j, Json::Obj(_))) {
        return None;
    }
    let jr_key = b_jsonrpc();
    let me_key = b_method();
    let id_key = b_id();
    let jr = match json_get(j, &jr_key) {
        None => {
            return None;
        },
        Some(f) => f,
    };
    if json_as_str(jr).is_none() {
        return None;
    }
    let me = match json_get(j, &me_key) {
        None => {
            return None;
        },
        Some(f) => f,
    };
    let method = match json_as_str(me) {
        None => {
            return None;
        },
        Some(m) => m,
    };
    match get_id(j, &id_key) {
        None => None,
        Some(i) => Some((method, i)),
    }
}

/// Reads a parsed JSON value as a response envelope.
pub fn read_response<'a>(j: &'a Json) -> (r: Option<ResponseParts<'a>>)
    ensures
        match r {
            Some(p) => rpc_response_of(j@) == Some(p.model()),
            None => rpc_response_of(j@) is None,
        },
{
    if !(matches!(j, Json::Obj(_))) {
        return None;
    }
    let jr_key = b_jsonrpc();
    let id_key = b_id();
    let result_key = b_result();
    let error_key = b_error();
    let jr = match json_get(j, &jr_key) {
        None => {
            return None;
        },
        Some(f) => f,
    };
    if json_as_str(jr).is_none() {
        return None;
    }
    let id = match get_id(j, &id_key) {
        None => {
            return None;
        },
        Some(i) => i,
    };
    let result = get_field_or_null(j, &result_key);
    match json_get(j, &error_key) {
        None => Some(ResponseParts { id, result, error: None }),
        Some(e) => match e {
            Json::Null => Some(ResponseParts { id, result, error: None }),
            _ => match read_error(e) {
                None => None,
                Some(err) => Some(ResponseParts { id, result, error: Some(err) }),
            },
        },
    }
}

/// Reads a JSON value as the error member of a response.
fn read_error<'a>(e: &'a Json) -> (r: Option<ErrorParts<'a>>)
    ensures
        match r {
            Some(p) => rpc_error_of(e@) == Some(
                RpcErrorV { code: p.code as int, message: p.message@, data: opt_view(p.data) },
            ),
            None => rpc_error_of(e@) is None,
        },
{
    if !(matches!(e, Json::Obj(_))) {
        return None;
    }
    let code_key = b_code();
    let message_key = b_message();
    let data_key = b_data();
    let c = match json_get(e, &code_key) {
        None => {
            return None;
        },
        Some(f) => f,
    };
    let clex = match json_as_num(c) {
        None => {
            return None;
        },
        Some(n) => n,
    };
    let m = match json_get(e, &message_key) {
        None => {
            return None;
        },
        Some(f) => f,
    };
    let msg = match json_as_str(m) {
        None => {
            return None;
        },
        Some(s) => s,
    };
    let code = match parse_i32_dec(clex) {
        None => {
            return None;
        },
        Some(c) => c,
    };
    let data = get_field_or_null(e, &data_key);
    Some(ErrorParts { code, message: msg, data })
}


// ------------------------------------------------------------------
// Building outgoing envelopes.
// ------------------------------------------------------------------

/// A `u64` as a JSON number.
pub open spec fn num_u64(n: u64) -> JsonV {
    JsonV::Num(dec_of_u64(n))
}

/// An optional id as a JSON value: a number, or `null`.
pub open spec fn id_json(id: Option<u64>) -> JsonV {
    match id {
        Some(n) => num_u64(n),
        None => JsonV::Null,
    }
}

/// The members of an outgoing request envelope: `jsonrpc` and `method`
/// always, then `params` and `id` where given.
pub open spec fn req_envelope(method: Seq<u8>, params: Option<JsonV>, id: Option<u64>) -> JsonV {
    let base = seq![
        (k_jsonrpc(), JsonV::Str(k_two_zero())),
        (k_method(), JsonV::Str(method)),
    ];
    let with_params = match params {
        Some(p) => base + seq![(k_params(), p)],
        None => base,
    };
    let with_id = match id {
        Some(n) => with_params + seq![(k_id(), num_u64(n))],
        None => with_params,
    };
    JsonV::Obj(with_id)
}

/// Serialized bytes of an outgoing request envelope.
pub open spec fn req_bytes(method: Seq<u8>, params: Option<JsonV>, id: Option<u64>) -> Seq<u8> {
    crate::json::ser_json(req_envelope(method, params, id))
}

/// A `u64` as an executable JSON number.
pub fn json_u64(n: u64) -> (r: Json)
    ensures
        r@ == num_u64(n),
{
    let mut v: Vec<u8> = Vec::new();
    crate::bytes::push_u64_dec(n, &mut v);
    proof {
        assert(v@ =~= dec_of_u64(n));
    }
    Json::Num(v)
}

/// Raw bytes as an executable JSON string: the contents are escaped so
/// that serialization yields a well-formed string token.
pub fn json_string_of(raw: &Vec<u8>) -> (r: Json)
    ensures
        r@ == JsonV::Str(crate::bytes::escape_bytes(raw@)),
{
    let mut c: Vec<u8> = Vec::new();
    crate::bytes::push_escaped(raw, &mut c);
    Json::Str(c)
}

/// Builds and serializes a request envelope.
pub fn build_request(method: &Vec<u8>, params: Option<Json>, id: Option<u64>) -> (r: Vec<u8>)
    ensures
        r@ == req_bytes(method@, match params {
            Some(p) => Some(p@),
            None => None::<JsonV>,
        }, id),
{
    let ghost params_v: Option<JsonV> = match &params {
        Some(p) => Some(p@),
        None => None,
    };
    let mut ms: Vec<(Vec<u8>, Json)> = Vec::new();
    let mut method_copy: Vec<u8> = Vec::new();
    crate::json::push_all(method, &mut method_copy);
    proof {
        assert(method_copy@ =~= method@);
    }
    ms.push((b_jsonrpc(), Json::Str(crate::strs::b_two_zero())));
    ms.push((b_method(), Json::Str(method_copy)));
    match params {
        Some(p) => {
            ms.push((b_params(), p));
        },
        None => {},
    }
    match id {
        Some(n) => {
            ms.push((b_id(), json_u64(n)));
        },
        None => {},
    }
    let obj = Json::Obj(ms);
    proof {
        let target = req_envelope(method@, params_v, id);
        assert(view_members(obj->Obj_0@) =~= target->Obj_0);
        assert(obj@ == target);
    }
    crate::json::json_to_bytes(&obj)
}


/// Every request body the engine builds is a well-formed document: it
/// parses back to exactly the envelope it was built from. The method
/// must be well-formed string contents and the params, when given, a
/// well-formed value; the engine's own methods and params satisfy both.
proof fn lemma_envelope_keys_wf()
    ensures
        crate::json::wf_str_content(k_jsonrpc()),
        crate::json::wf_str_content(k_method()),
        crate::json::wf_str_content(k_params()),
        crate::json::wf_str_content(k_id()),
        crate::json::wf_str_content(k_two_zero()),
{
    crate::json::lemma_plain_wf(k_jsonrpc());
    crate::json::lemma_plain_wf(k_method());
    crate::json::lemma_plain_wf(k_params());
    crate::json::lemma_plain_wf(k_id());
    crate::json::lemma_plain_wf(k_two_zero());
}

pub proof fn lemma_req_bytes_readable(method: Seq<u8>, params: Option<JsonV>, id: Option<u64>)
    requires
        crate::json::wf_str_content(method),
        match params {
            Some(p) => crate::json::wf_json(p),
            None => true,
        },
    ensures
        spec_json(req_bytes(method, params, id)) == Some(req_envelope(method, params, id)),
{
    lemma_envelope_keys_wf();
    let env = req_envelope(method, params, id);
    let ms = env->Obj_0;
    let base = seq![
        (k_jsonrpc(), JsonV::Str(k_two_zero())),
        (k_method(), JsonV::Str(method)),
    ];
    reveal_with_fuel(crate::json::wf_members_from, 6);
    match id {
        Some(n) => {
            crate::json::lemma_dec_wf(n);
        },
        None => {},
    }
    match (params, id) {
        (None, None) => {
            assert(ms =~= base);
            assert(crate::json::wf_members_from(ms, 0));
        },
        (None, Some(n)) => {
            assert(ms =~= base + seq![(k_id(), num_u64(n))]);
            assert(ms[0] == base[0]);
            assert(ms[1] == base[1]);
            assert(ms[2] == (k_id(), num_u64(n)));
            assert(crate::json::wf_members_from(ms, 0));
        },
        (Some(p), None) => {
            assert(ms =~= base + seq![(k_params(), p)]);
            assert(ms[0] == base[0]);
            assert(ms[1] == base[1]);
            assert(ms[2] == (k_params(), p));
            assert(crate::json::wf_members_from(ms, 0));
        },
        (Some(p), Some(n)) => {
            assert(ms =~= base + seq![(k_params(), p)] + seq![(k_id(), num_u64(n))]);
            assert(ms[0] == base[0]);
            assert(ms[1] == base[1]);
            assert(ms[2] == (k_params(), p));
            assert(ms[3] == (k_id(), num_u64(n)));
            assert(crate::json::wf_members_from(ms, 0));
        },
    }
    assert(crate::json::wf_json(env));
    crate::json::lemma_parse_of_ser_json(env);
}


/// An outgoing envelope reads back as the request it encodes: the
/// protocol tag, the method and the id are recovered exactly, and the
/// params member comes back as given, with `null` counting as absent.
pub proof fn lemma_req_envelope_readback(method: Seq<u8>, params: Option<JsonV>, id: Option<u64>)
    ensures
        rpc_request_of(req_envelope(method, params, id)) == Some(
            RpcRequestV {
                jsonrpc: k_two_zero(),
                method: method,
                params: match params {
                    Some(p) => if p is Null {
                        None
                    } else {
                        Some(p)
                    },
                    None => None,
                },
                id: id,
            },
        ),
{
    let env = req_envelope(method, params, id);
    let ms = env->Obj_0;
    assert(k_jsonrpc().len() == 7);
    assert(k_method().len() == 6);
    assert(k_params().len() == 6);
    assert(k_id().len() == 2);
    assert(k_method()[0] == 109 && k_params()[0] == 112);
    let jm = (k_jsonrpc(), JsonV::Str(k_two_zero()));
    let mm = (k_method(), JsonV::Str(method));
    // The first two members are fixed; whatever follows, the lookups
    // for `jsonrpc` and `method` resolve there.
    assert(ms[0] == jm);
    assert(ms[1] == mm);
    assert(crate::json::obj_lookup(ms, k_jsonrpc()) == Some(JsonV::Str(k_two_zero())));
    let t1 = ms.subrange(1, ms.len() as int);
    assert(t1[0] == mm);
    assert(crate::json::obj_lookup(ms, k_method()) == crate::json::obj_lookup(t1, k_method()));
    assert(crate::json::obj_lookup(t1, k_method()) == Some(JsonV::Str(method)));
    let t2 = t1.subrange(1, t1.len() as int);
    assert(ms[0].0 != k_params() && ms[0].0 != k_id());
    assert(t1[0].0 != k_params() && t1[0].0 != k_id());
    assert(crate::json::obj_lookup(ms, k_params()) == crate::json::obj_lookup(t1, k_params()));
    assert(crate::json::obj_lookup(t1, k_params()) == crate::json::obj_lookup(t2, k_params()));
    assert(crate::json::obj_lookup(ms, k_id()) == crate::json::obj_lookup(t1, k_id()));
    assert(crate::json::obj_lookup(t1, k_id()) == crate::json::obj_lookup(t2, k_id()));
    match (params, id) {
        (None, None) => {
            assert(t2.len() == 0);
            assert(crate::json::obj_lookup(t2, k_params()) is None);
            assert(crate::json::obj_lookup(t2, k_id()) is None);
        },
        (None, Some(n)) => {
            assert(t2 =~= seq![(k_id(), num_u64(n))]);
            assert(crate::json::obj_lookup(t2, k_params()) is None) by {
                assert(t2[0].0 != k_params());
                assert(crate::json::obj_lookup(t2, k_params()) == crate::json::obj_lookup(
                    t2.subrange(1, t2.len() as int),
                    k_params(),
                ));
                assert(t2.subrange(1, t2.len() as int).len() == 0);
            }
            assert(crate::json::obj_lookup(t2, k_id()) == Some(num_u64(n)));
            crate::bytes::lemma_u64_of_dec_roundtrip(n);
        },
        (Some(p), None) => {
            assert(t2 =~= seq![(k_params(), p)]);
            assert(crate::json::obj_lookup(t2, k_params()) == Some(p));
            assert(crate::json::obj_lookup(t2, k_id()) is None) by {
                assert(t2[0].0 != k_id());
                assert(crate::json::obj_lookup(t2, k_id()) == crate::json::obj_lookup(
                    t2.subrange(1, t2.len() as int),
                    k_id(),
                ));
                assert(t2.subrange(1, t2.len() as int).len() == 0);
            }
        },
        (Some(p), Some(n)) => {
            assert(t2 =~= seq![(k_params(), p), (k_id(), num_u64(n))]);
            assert(crate::json::obj_lookup(t2, k_params()) == Some(p));
            let t3 = t2.subrange(1, t2.len() as int);
            assert(t3 =~= seq![(k_id(), num_u64(n))]);
            assert(crate::json::obj_lookup(t2, k_id()) == crate::json::obj_lookup(t3, k_id()));
            assert(crate::json::obj_lookup(t3, k_id()) == Some(num_u64(n))) by {
                assert(t3[0] == (k_id(), num_u64(n)));
            }
            crate::bytes::lemma_u64_of_dec_roundtrip(n);
        },
    }
}

} // verus!
