//! The client context: the one object the host constructs and passes to
//! every operation.
//!
//! It gathers the module-wide state under one roof: the uptime counter,
//! the configured server URL, the debug flag, the server registry, and
//! the in-memory metadata with its recorded events.
use vstd::prelude::*;

use crate::json::{Json, JsonV, push_all, ser_json, json_to_bytes};
use crate::registry::{
    McpServer, McpServerV, McpServerRegistry, McpTool, McpToolV, RegistryV, ServerStatus,
    ToolParameter, ToolParameterV, registry_wf,
};
use crate::rpc::{num_u64, json_string_of, json_u64};
use crate::bytes::escape_bytes;
use crate::handshake::{HandshakeError, handshake_error_msg};
use crate::strs::{
    k_v_lib_version, k_metadata_version, k_memory_events, k_last_health_check, k_version,
    k_name, k_description, k_required, k_type_key, k_parameters, k_url, k_status, k_tools,
    k_session_id, k_servers, k_default_server, k_initializing, k_connected, k_failed, k_success,
    k_init_ok_prefix, k_init_fail_prefix, k_message, k_error, k_server_info_key, k_id,
    k_text, k_timestamp, k_bootrom_id, k_bootrom_name, k_built_sep, k_open_paren,
    k_close_paren, k_default_url, b_v_lib_version, b_metadata_version,
    b_memory_events, b_last_health_check, b_version, b_name, b_description, b_required,
    b_type_key, b_parameters, b_url, b_status, b_tools, b_session_id, b_servers,
    b_default_server, b_initializing, b_connected, b_failed, b_success, b_init_ok_prefix,
    b_init_fail_prefix, b_message, b_error, b_server_info_key, b_id, b_text, b_timestamp,
    b_bootrom_id, b_bootrom_name, b_built_sep, b_open_paren, b_close_paren, b_default_url,
};

verus! {

/// One recorded event.
pub struct MemoryEvent {
    pub timestamp: u64,
    pub text: Vec<u8>,
}

/// Model of one recorded event.
#[verifier::ext_equal]
pub struct MemoryEventV {
    pub timestamp: u64,
    pub text: Seq<u8>,
}

impl View for MemoryEvent {
    type V = MemoryEventV;

    open spec fn view(&self) -> MemoryEventV {
        MemoryEventV { timestamp: self.timestamp, text: self.text@ }
    }
}

/// The in-memory module metadata.
pub struct ModuleMetadata {
    pub version: Vec<u8>,
    pub memory_events: Vec<MemoryEvent>,
    pub last_health_check: u64,
}

/// Model of the module metadata.
#[verifier::ext_equal]
pub struct ModuleMetadataV {
    pub version: Seq<u8>,
    pub memory_events: Seq<MemoryEventV>,
    pub last_health_check: u64,
}

impl View for ModuleMetadata {
    type V = ModuleMetadataV;

    open spec fn view(&self) -> ModuleMetadataV {
        ModuleMetadataV {
            version: self.version@,
            memory_events: Seq::new(self.memory_events@.len(), |i: int| self.memory_events@[i]@),
            last_health_check: self.last_health_check,
        }
    }
}

/// The client context.
pub struct McpClient {
    pub uptime: u64,
    pub server_url: Vec<u8>,
    pub debug_mode: bool,
    pub registry: McpServerRegistry,
    pub module_metadata: Option<ModuleMetadata>,
}

impl McpClient {
    /// A fresh context: zero uptime, the default server URL, debugging
    /// off, nothing registered and no metadata.
    pub fn new() -> (r: McpClient)
        ensures
            r.uptime == 0,
            r.server_url@ == k_default_url(),
            !r.debug_mode,
            r.registry@.servers == Seq::<McpServerV>::empty(),
            r.registry@.default_server is None,
            registry_wf(r.registry@),
            r.module_metadata is None,
    {
        McpClient {
            uptime: 0,
            server_url: b_default_url(),
            debug_mode: false,
            registry: McpServerRegistry::new(),
            module_metadata: None,
        }
    }

    /// The uptime counter.
    pub fn get_uptime(&self) -> (r: u64)
        ensures
            r == self.uptime,
    {
        self.uptime
    }

    /// Advances the uptime counter by one second, wrapping at the top.
    pub fn increment_uptime(&mut self)
        ensures
            final(self).uptime == old(self).uptime.wrapping_add(1),
            final(self).server_url == old(self).server_url,
            final(self).debug_mode == old(self).debug_mode,
            final(self).registry == old(self).registry,
            final(self).module_metadata == old(self).module_metadata,
    {
        self.uptime = self.uptime.wrapping_add(1);
    }

    /// Replaces the configured server URL.
    pub fn set_server_url(&mut self, url: Vec<u8>)
        ensures
            final(self).server_url@ == url@,
            final(self).uptime == old(self).uptime,
            final(self).debug_mode == old(self).debug_mode,
            final(self).registry == old(self).registry,
            final(self).module_metadata == old(self).module_metadata,
    {
        self.server_url = url;
    }

    /// The configured server URL.
    pub fn get_server_url(&self) -> (r: Vec<u8>)
        ensures
            r@ == self.server_url@,
    {
        let mut out: Vec<u8> = Vec::new();
        push_all(&self.server_url, &mut out);
        proof {
            assert(out@ =~= self.server_url@);
        }
        out
    }

    /// Local liveness only: the module is loaded and answering, so the
    /// verdict is always zero.
    pub fn health_check(&self) -> (r: u32)
        ensures
            r == 0u32,
    {
        0
    }

    /// Switches debug logging.
    pub fn set_debug_mode(&mut self, enabled: bool)
        ensures
            final(self).debug_mode == enabled,
            final(self).uptime == old(self).uptime,
            final(self).server_url == old(self).server_url,
            final(self).registry == old(self).registry,
            final(self).module_metadata == old(self).module_metadata,
    {
        self.debug_mode = enabled;
    }

    /// Records one event: the first event creates the metadata with the
    /// fixed version and `now` as its health timestamp, later ones are
    /// appended to it.
    pub fn add_memory_event(&mut self, text: Vec<u8>, now: u64)
        ensures
            final(self).uptime == old(self).uptime,
            final(self).server_url == old(self).server_url,
            final(self).debug_mode == old(self).debug_mode,
            final(self).registry == old(self).registry,
            ({
                let ev = MemoryEventV { timestamp: now, text: text@ };
                match old(self).module_metadata {
                    None => final(self).module_metadata matches Some(m) && m@
                        == (ModuleMetadataV {
                        version: k_metadata_version(),
                        memory_events: seq![ev],
                        last_health_check: now,
                    }),
                    Some(m0) => final(self).module_metadata matches Some(m) && m@
                        == (ModuleMetadataV {
                        version: m0@.version,
                        memory_events: m0@.memory_events.push(ev),
                        last_health_check: m0@.last_health_check,
                    }),
                }
            }),
    {
        let ghost tv = text@;
        let event = MemoryEvent { timestamp: now, text };
        match &mut self.module_metadata {
            None => {
                let mut events: Vec<MemoryEvent> = Vec::new();
                events.push(event);
                let meta = ModuleMetadata {
                    version: b_metadata_version(),
                    memory_events: events,
                    last_health_check: now,
                };
                proof {
                    assert(meta@.memory_events =~= seq![
                        MemoryEventV { timestamp: now, text: tv },
                    ]);
                }
                self.module_metadata = Some(meta);
            },
            Some(meta) => {
                let ghost before = meta@;
                meta.memory_events.push(event);
                proof {
                    assert(meta@.memory_events =~= before.memory_events.push(
                        MemoryEventV { timestamp: now, text: tv },
                    ));
                    assert(meta@ =~= (ModuleMetadataV {
                        version: before.version,
                        memory_events: before.memory_events.push(
                            MemoryEventV { timestamp: now, text: tv },
                        ),
                        last_health_check: before.last_health_check,
                    }));
                }
            },
        }
    }

    /// Resets the metadata to hold no events, stamped with `now`.
    pub fn clear_memory_events(&mut self, now: u64) -> (r: Result<(), Vec<u8>>)
        ensures
            r is Ok,
            final(self).uptime == old(self).uptime,
            final(self).server_url == old(self).server_url,
            final(self).debug_mode == old(self).debug_mode,
            final(self).registry == old(self).registry,
            final(self).module_metadata matches Some(m) && m@ == (ModuleMetadataV {
                version: k_metadata_version(),
                memory_events: Seq::empty(),
                last_health_check: now,
            }),
    {
        let meta = ModuleMetadata {
            version: b_metadata_version(),
            memory_events: Vec::new(),
            last_health_check: now,
        };
        proof {
            assert(meta@.memory_events =~= Seq::<MemoryEventV>::empty());
        }
        self.module_metadata = Some(meta);
        Ok(())
    }
}

// ------------------------------------------------------------------
// Free operations: version and build information, metadata snapshots.
// ------------------------------------------------------------------

/// The version tag shown to the host.
pub fn get_version() -> (r: Vec<u8>)
    ensures
        r@ == k_v_lib_version(),
{
    b_v_lib_version()
}

/// A fresh metadata snapshot: the fixed metadata version, no events,
/// and `now` as the health timestamp.
pub open spec fn metadata_json(now: u64) -> JsonV {
    JsonV::Obj(
        seq![
            (k_version(), JsonV::Str(k_metadata_version())),
            (k_memory_events(), JsonV::Arr(Seq::empty())),
            (k_last_health_check(), num_u64(now)),
        ],
    )
}

/// Serializes a fresh metadata snapshot taken at `now`.
pub fn get_metadata(now: u64) -> (r: Vec<u8>)
    ensures
        r@ == ser_json(metadata_json(now)),
{
    let vv = Json::Str(b_metadata_version());
    proof {
        assert(vv@ == JsonV::Str(k_metadata_version()));
    }
    let events = Json::Arr(Vec::new());
    proof {
        assert(events@->Arr_0 =~= Seq::<JsonV>::empty());
        assert(events@ == JsonV::Arr(Seq::<JsonV>::empty()));
    }
    let obj = crate::json::obj_3(
        b_version(),
        vv,
        b_memory_events(),
        events,
        b_last_health_check(),
        json_u64(now),
    );
    proof {
        assert(obj@ == metadata_json(now));
    }
    json_to_bytes(&obj)
}

/// The build banner: the version tag, the build date and the first
/// eight characters of the build hash.
pub fn get_compiled_info(build_datetime: &Vec<u8>, build_hash: &Vec<u8>) -> (r: Vec<u8>)
    requires
        build_hash@.len() >= 8,
    ensures
        r@ == k_v_lib_version() + k_built_sep() + build_datetime@ + k_open_paren()
            + build_hash@.subrange(0, 8) + k_close_paren(),
{
    let mut out = b_v_lib_version();
    let sep = b_built_sep();
    push_all(&sep, &mut out);
    push_all(build_datetime, &mut out);
    let op = b_open_paren();
    push_all(&op, &mut out);
    let hash8 = crate::json::copy_range(build_hash, 0, 8);
    push_all(&hash8, &mut out);
    let cp = b_close_paren();
    push_all(&cp, &mut out);
    proof {
        assert(out@ =~= k_v_lib_version() + k_built_sep() + build_datetime@ + k_open_paren()
            + build_hash@.subrange(0, 8) + k_close_paren());
    }
    out
}

/// The boot record event: fixed id and name, the given text, and a zero
/// timestamp.
pub open spec fn bootrom_json(text: Seq<u8>) -> JsonV {
    JsonV::Obj(
        seq![
            (k_id(), JsonV::Str(k_bootrom_id())),
            (k_name(), JsonV::Str(k_bootrom_name())),
            (k_text(), JsonV::Str(escape_bytes(text))),
            (k_timestamp(), num_u64(0)),
        ],
    )
}

/// Serializes the boot record event for the given text.
pub fn get_bootrom(text: &Vec<u8>) -> (r: Vec<u8>)
    ensures
        r@ == ser_json(bootrom_json(text@)),
{
    let idv = Json::Str(b_bootrom_id());
    let namev = Json::Str(b_bootrom_name());
    proof {
        assert(idv@ == JsonV::Str(k_bootrom_id()));
        assert(namev@ == JsonV::Str(k_bootrom_name()));
    }
    let textv = json_string_of(text);
    let obj = crate::json::obj_4(
        b_id(),
        idv,
        b_name(),
        namev,
        b_text(),
        textv,
        b_timestamp(),
        json_u64(0),
    );
    proof {
        assert(obj@ == bootrom_json(text@));
    }
    json_to_bytes(&obj)
}


// ------------------------------------------------------------------
// Serializing the registry and the initialization outcome.
// ------------------------------------------------------------------

/// The status word written for a record.
pub open spec fn status_text(s: ServerStatus) -> Seq<u8> {
    match s {
        ServerStatus::Initializing => k_initializing(),
        ServerStatus::Connected => k_connected(),
        ServerStatus::Failed => k_failed(),
    }
}

/// One tool parameter as JSON.
pub open spec fn param_json(p: ToolParameterV) -> JsonV {
    JsonV::Obj(
        seq![
            (k_name(), JsonV::Str(escape_bytes(p.name))),
            (k_description(), JsonV::Str(escape_bytes(p.description))),
            (k_required(), JsonV::Bool(p.required)),
            (k_type_key(), JsonV::Str(escape_bytes(p.param_type))),
        ],
    )
}

/// One tool as JSON.
pub open spec fn tool_json(t: McpToolV) -> JsonV {
    JsonV::Obj(
        seq![
            (k_name(), JsonV::Str(escape_bytes(t.name))),
            (k_description(), JsonV::Str(escape_bytes(t.description))),
            (k_version(), JsonV::Str(escape_bytes(t.version))),
            (
                k_parameters(),
                JsonV::Arr(Seq::new(t.parameters.len(), |i: int| param_json(t.parameters[i]))),
            ),
        ],
    )
}

/// One server record as JSON.
pub open spec fn server_json(s: McpServerV) -> JsonV {
    JsonV::Obj(
        seq![
            (k_url(), JsonV::Str(escape_bytes(s.url))),
            (k_name(), JsonV::Str(escape_bytes(s.name))),
            (k_version(), JsonV::Str(escape_bytes(s.version))),
            (k_status(), JsonV::Str(status_text(s.status))),
            (k_tools(), JsonV::Arr(Seq::new(s.tools.len(), |i: int| tool_json(s.tools[i])))),
            (k_last_health_check(), num_u64(s.last_health_check)),
            (
                k_session_id(),
                match s.session_id {
                    Some(sid) => JsonV::Str(escape_bytes(sid)),
                    None => JsonV::Null,
                },
            ),
        ],
    )
}

/// The whole registry as JSON: the records keyed by URL, and the
/// default pointer.
pub open spec fn registry_json(r: RegistryV) -> JsonV {
    JsonV::Obj(
        seq![
            (
                k_servers(),
                JsonV::Obj(
                    Seq::new(
                        r.servers.len(),
                        |i: int| (escape_bytes(r.servers[i].url), server_json(r.servers[i])),
                    ),
                ),
            ),
            (
                k_default_server(),
                match r.default_server {
                    Some(u) => JsonV::Str(escape_bytes(u)),
                    None => JsonV::Null,
                },
            ),
        ],
    )
}

/// Builds one tool parameter value.
fn param_to_json(p: &ToolParameter) -> (r: Json)
    ensures
        r@ == param_json(p@),
{
    crate::json::obj_4(
        b_name(),
        json_string_of(&p.name),
        b_description(),
        json_string_of(&p.description),
        b_required(),
        Json::Bool(p.required),
        b_type_key(),
        json_string_of(&p.param_type),
    )
}

/// Builds one tool value.
fn tool_to_json(t: &McpTool) -> (r: Json)
    ensures
        r@ == tool_json(t@),
{
    let mut ps: Vec<Json> = Vec::new();
    let mut i: usize = 0;
    while i < t.parameters.len()
        invariant
            i <= t.parameters@.len(),
            ps@.len() == i,
            forall|j: int| 0 <= j < i ==> ps@[j]@ == param_json(t.parameters@[j]@),
        decreases t.parameters@.len() - i,
    {
        ps.push(param_to_json(&t.parameters[i]));
        i = i + 1;
    }
    let params_arr = Json::Arr(ps);
    proof {
        broadcast use crate::json::lemma_view_elems_len;
        broadcast use crate::json::lemma_view_elems_index;

        let g = params_arr@->Arr_0;
        assert(g =~~= Seq::new(t@.parameters.len(), |k: int| param_json(t@.parameters[k])));
        assert(params_arr@ == JsonV::Arr(g));
    }
    crate::json::obj_4(
        b_name(),
        json_string_of(&t.name),
        b_description(),
        json_string_of(&t.description),
        b_version(),
        json_string_of(&t.version),
        b_parameters(),
        params_arr,
    )
}

/// Builds one server record value.
fn server_to_json(s: &McpServer) -> (r: Json)
    ensures
        r@ == server_json(s@),
{
    let mut ts: Vec<Json> = Vec::new();
    let mut i: usize = 0;
    while i < s.tools.len()
        invariant
            i <= s.tools@.len(),
            ts@.len() == i,
            forall|j: int| 0 <= j < i ==> ts@[j]@ == tool_json(s.tools@[j]@),
        decreases s.tools@.len() - i,
    {
        ts.push(tool_to_json(&s.tools[i]));
        i = i + 1;
    }
    let tools_arr = Json::Arr(ts);
    proof {
        broadcast use crate::json::lemma_view_elems_len;
        broadcast use crate::json::lemma_view_elems_index;

        let g = tools_arr@->Arr_0;
        assert(g =~~= Seq::new(s@.tools.len(), |k: int| tool_json(s@.tools[k])));
        assert(tools_arr@ == JsonV::Arr(g));
    }
    let statusj = match s.status {
        ServerStatus::Initializing => Json::Str(b_initializing()),
        ServerStatus::Connected => Json::Str(b_connected()),
        ServerStatus::Failed => Json::Str(b_failed()),
    };
    proof {
        assert(statusj@ == JsonV::Str(status_text(s@.status)));
    }
    let sessionj = match &s.session_id {
        Some(sid) => {
            let j = json_string_of(sid);
            proof {
                assert(s@.session_id == Some(sid@));
                assert(j@ == match s@.session_id {
                    Some(x) => JsonV::Str(escape_bytes(x)),
                    None => JsonV::Null,
                });
            }
            j
        },
        None => Json::Null,
    };
    let r = crate::json::obj_7(
        b_url(),
        json_string_of(&s.url),
        b_name(),
        json_string_of(&s.name),
        b_version(),
        json_string_of(&s.version),
        b_status(),
        statusj,
        b_tools(),
        tools_arr,
        b_last_health_check(),
        json_u64(s.last_health_check),
        b_session_id(),
        sessionj,
    );
    proof {
        assert(r@->Obj_0 =~~= server_json(s@)->Obj_0);
        assert(r@ == server_json(s@));
    }
    r
}

impl McpClient {
    /// Serializes the registry: every record, whole, and the default
    /// pointer, as one consistent snapshot.
    pub fn get_server_info(&self) -> (r: Vec<u8>)
        ensures
            r@ == ser_json(registry_json(self.registry@)),
    {
        let rs = &self.registry.servers;
        let mut ms: Vec<(Vec<u8>, Json)> = Vec::new();
        let mut i: usize = 0;
        while i < rs.len()
            invariant
                i <= rs@.len(),
                ms@.len() == i,
                forall|j: int|
                    #![trigger ms@[j]]
                    0 <= j < i ==> ms@[j].0@ == escape_bytes(rs@[j]@.url) && ms@[j].1@
                        == server_json(rs@[j]@),
            decreases rs@.len() - i,
        {
            let mut key: Vec<u8> = Vec::new();
            crate::bytes::push_escaped(&rs[i].url, &mut key);
            proof {
                assert(key@ =~= escape_bytes(rs@[i as int]@.url));
            }
            ms.push((key, server_to_json(&rs[i])));
            i = i + 1;
        }
        let servers_obj = Json::Obj(ms);
        proof {
            broadcast use crate::json::lemma_view_members_len;
            broadcast use crate::json::lemma_view_members_index;

            let g = servers_obj@->Obj_0;
            assert(forall|k: int|
                0 <= k < rs@.len() ==> #[trigger] self.registry@.servers[k] == rs@[k]@);
            assert(g =~~= Seq::new(
                self.registry@.servers.len(),
                |k: int|
                    (
                        escape_bytes(self.registry@.servers[k].url),
                        server_json(self.registry@.servers[k]),
                    ),
            ));
            assert(servers_obj@ == JsonV::Obj(g));
        }
        let dfltj = match &self.registry.default_server {
            Some(u) => json_string_of(u),
            None => Json::Null,
        };
        let obj = crate::json::obj_2(b_servers(), servers_obj, b_default_server(), dfltj);
        proof {
            assert(obj@->Obj_0 =~~= registry_json(self.registry@)->Obj_0);
            assert(obj@ == registry_json(self.registry@));
        }
        json_to_bytes(&obj)
    }
}

/// The body reported after a successful initialization: a success
/// status, a message naming the URL, and the discovered record.
pub open spec fn init_success_json(url: Seq<u8>, server: McpServerV) -> JsonV {
    JsonV::Obj(
        seq![
            (k_status(), JsonV::Str(k_success())),
            (k_message(), JsonV::Str(k_init_ok_prefix() + escape_bytes(url))),
            (k_server_info_key(), server_json(server)),
        ],
    )
}

/// Serializes the success report of an initialization.
pub fn initialize_success_bytes(url: &Vec<u8>, server: &McpServer) -> (r: Vec<u8>)
    ensures
        r@ == ser_json(init_success_json(url@, server@)),
{
    let statusv = Json::Str(b_success());
    proof {
        assert(statusv@ == JsonV::Str(k_success()));
    }
    let mut msg = b_init_ok_prefix();
    crate::bytes::push_escaped(url, &mut msg);
    proof {
        assert(msg@ =~= k_init_ok_prefix() + escape_bytes(url@));
    }
    let msgv = Json::Str(msg);
    let obj = crate::json::obj_3(
        b_status(),
        statusv,
        b_message(),
        msgv,
        b_server_info_key(),
        server_to_json(server),
    );
    proof {
        assert(obj@ == init_success_json(url@, server@));
    }
    json_to_bytes(&obj)
}

/// The body reported after a failed initialization: an error status and
/// a message naming the cause.
pub open spec fn init_error_json(e: HandshakeError) -> JsonV {
    JsonV::Obj(
        seq![
            (k_status(), JsonV::Str(k_error())),
            (k_message(), JsonV::Str(k_init_fail_prefix() + handshake_error_msg(e))),
        ],
    )
}

/// Serializes the failure report of an initialization.
pub fn initialize_error_bytes(err: &HandshakeError) -> (r: Vec<u8>)
    ensures
        r@ == ser_json(init_error_json(*err)),
{
    let statusv = Json::Str(b_error());
    proof {
        assert(statusv@ == JsonV::Str(k_error()));
    }
    let mut msg = b_init_fail_prefix();
    let detail = err.message();
    push_all(&detail, &mut msg);
    proof {
        assert(msg@ =~= k_init_fail_prefix() + handshake_error_msg(*err));
    }
    let msgv = Json::Str(msg);
    let obj = crate::json::obj_2(b_status(), statusv, b_message(), msgv);
    proof {
        assert(obj@ == init_error_json(*err));
    }
    json_to_bytes(&obj)
}


// ------------------------------------------------------------------
// The initialization flow.
// ------------------------------------------------------------------

impl McpClient {
    /// Starts initializing a server: registers the URL (idempotently)
    /// so that a record exists before the handshake is attempted.
    pub fn initialize_mcp_server_begin(&mut self, url: &Vec<u8>, now: u64) -> (r:
        crate::registry::RegisterOutcome)
        requires
            registry_wf(old(self).registry@),
        ensures
            registry_wf(final(self).registry@),
            final(self).registry@ == crate::registry::after_register(
                old(self).registry@,
                url@,
                now,
            ),
            final(self).uptime == old(self).uptime,
            final(self).server_url == old(self).server_url,
            final(self).debug_mode == old(self).debug_mode,
            final(self).module_metadata == old(self).module_metadata,
    {
        self.registry.register(url, now)
    }

    /// Finishes initializing a server from the interpreted handshake
    /// outcome: a success is committed whole to the record and reported
    /// with the discovered data; a failure marks the record `Failed`
    /// and reports the cause. The default pointer never moves.
    pub fn initialize_mcp_server_finish(
        &mut self,
        url: &Vec<u8>,
        outcome: Result<McpServer, HandshakeError>,
    ) -> (r: Result<Vec<u8>, Vec<u8>>)
        requires
            registry_wf(old(self).registry@),
        ensures
            registry_wf(final(self).registry@),
            final(self).registry@.default_server == old(self).registry@.default_server,
            final(self).uptime == old(self).uptime,
            final(self).server_url == old(self).server_url,
            final(self).debug_mode == old(self).debug_mode,
            final(self).module_metadata == old(self).module_metadata,
            match outcome {
                Ok(server) => final(self).registry@ == crate::registry::after_success(
                    old(self).registry@,
                    url@,
                    server@.name,
                    server@.version,
                    server@.tools,
                    server@.session_id,
                ) && (r matches Ok(b) && b@ == ser_json(init_success_json(url@, server@))),
                Err(e) => final(self).registry@ == crate::registry::after_failure(
                    old(self).registry@,
                    url@,
                ) && (r matches Err(b) && b@ == ser_json(init_error_json(e))),
            },
    {
        match outcome {
            Ok(server) => {
                let bytes = initialize_success_bytes(url, &server);
                let McpServer { name, version, tools, session_id, .. } = server;
                self.registry.commit_handshake_success(url, name, version, tools, session_id);
                Ok(bytes)
            },
            Err(e) => {
                self.registry.commit_handshake_failure(url);
                Err(initialize_error_bytes(&e))
            },
        }
    }
}


/// The body reported when a URL to initialize is already registered:
/// the status word and the current record, untouched.
pub open spec fn already_registered_json(r: McpServerV) -> JsonV {
    JsonV::Obj(
        seq![
            (k_status(), JsonV::Str(crate::strs::k_already_registered())),
            (k_server_info_key(), server_json(r)),
        ],
    )
}

impl McpClient {
    /// Serializes the `already_registered` report for `url`: its
    /// current record as it stands, with no handshake run and nothing
    /// mutated. `None` when the URL is not registered.
    pub fn already_registered_report(&self, url: &Vec<u8>) -> (r: Option<Vec<u8>>)
        ensures
            match crate::registry::find_url(self.registry@.servers, url@) {
                Some(k) => r matches Some(b) && b@ == ser_json(
                    already_registered_json(self.registry@.servers[k]),
                ),
                None => r is None,
            },
    {
        match self.registry.get(url) {
            None => None,
            Some(srv) => {
                let statusv = Json::Str(crate::strs::b_already_registered());
                proof {
                    assert(statusv@ == JsonV::Str(crate::strs::k_already_registered()));
                }
                let obj = crate::json::obj_2(
                    b_status(),
                    statusv,
                    b_server_info_key(),
                    server_to_json(srv),
                );
                proof {
                    assert(obj@ == already_registered_json(
                        self.registry@.servers[
                            crate::registry::find_url(self.registry@.servers, url@)->0
                        ],
                    ));
                }
                Some(json_to_bytes(&obj))
            },
        }
    }
}

} // verus!
