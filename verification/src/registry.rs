//! The server registry: one record per configured server URL, and the
//! default-server pointer.
//!
//! The registry's invariant ties the default pointer to the first
//! registered URL: once any server is registered the default is exactly
//! the URL of the first record, and records are never removed, so the
//! default never changes afterwards. Records are keyed by URL and the
//! keys are unique.
use vstd::prelude::*;

use crate::strs::{k_server_at_prefix, k_unknown_lc, b_server_at_prefix, b_unknown_lc};

verus! {

/// One declared parameter of a tool.
#[derive(Debug)]
pub struct ToolParameter {
    pub name: Vec<u8>,
    pub description: Vec<u8>,
    pub required: bool,
    pub param_type: Vec<u8>,
}

/// One tool a server advertises.
#[derive(Debug)]
pub struct McpTool {
    pub name: Vec<u8>,
    pub description: Vec<u8>,
    pub version: Vec<u8>,
    pub parameters: Vec<ToolParameter>,
}

/// Lifecycle of a registered server: created as `Initializing`, moved by
/// the handshake to `Connected` or `Failed`.
#[derive(PartialEq, Eq, Structural, Clone, Copy, Debug)]
pub enum ServerStatus {
    Initializing,
    Connected,
    Failed,
}

/// One registered server.
#[derive(Debug)]
pub struct McpServer {
    pub url: Vec<u8>,
    pub name: Vec<u8>,
    pub version: Vec<u8>,
    pub status: ServerStatus,
    pub tools: Vec<McpTool>,
    pub last_health_check: u64,
    pub session_id: Option<Vec<u8>>,
}

/// Model of a tool parameter.
#[verifier::ext_equal]
pub struct ToolParameterV {
    pub name: Seq<u8>,
    pub description: Seq<u8>,
    pub required: bool,
    pub param_type: Seq<u8>,
}

/// Model of a tool.
#[verifier::ext_equal]
pub struct McpToolV {
    pub name: Seq<u8>,
    pub description: Seq<u8>,
    pub version: Seq<u8>,
    pub parameters: Seq<ToolParameterV>,
}

/// Model of a server record.
#[verifier::ext_equal]
pub struct McpServerV {
    pub url: Seq<u8>,
    pub name: Seq<u8>,
    pub version: Seq<u8>,
    pub status: ServerStatus,
    pub tools: Seq<McpToolV>,
    pub last_health_check: u64,
    pub session_id: Option<Seq<u8>>,
}

impl View for ToolParameter {
    type V = ToolParameterV;

    open spec fn view(&self) -> ToolParameterV {
        ToolParameterV {
            name: self.name@,
            description: self.description@,
            required: self.required,
            param_type: self.param_type@,
        }
    }
}

impl View for McpTool {
    type V = McpToolV;

    open spec fn view(&self) -> McpToolV {
        McpToolV {
            name: self.name@,
            description: self.description@,
            version: self.version@,
            parameters: Seq::new(self.parameters@.len(), |i: int| self.parameters@[i]@),
        }
    }
}

/// Model of a sequence of tools.
pub open spec fn view_tools(ts: Seq<McpTool>) -> Seq<McpToolV> {
    Seq::new(ts.len(), |i: int| ts[i]@)
}

/// Model of an optional byte string.
pub open spec fn opt_bytes_view(o: Option<Vec<u8>>) -> Option<Seq<u8>> {
    match o {
        Some(s) => Some(s@),
        None => None,
    }
}

impl View for McpServer {
    type V = McpServerV;

    open spec fn view(&self) -> McpServerV {
        McpServerV {
            url: self.url@,
            name: self.name@,
            version: self.version@,
            status: self.status,
            tools: view_tools(self.tools@),
            last_health_check: self.last_health_check,
            session_id: match self.session_id {
                Some(s) => Some(s@),
                None => None,
            },
        }
    }
}

/// Model of the registry.
#[verifier::ext_equal]
pub struct RegistryV {
    pub servers: Seq<McpServerV>,
    pub default_server: Option<Seq<u8>>,
}

/// The registry: records in registration order, and the default URL.
pub struct McpServerRegistry {
    pub servers: Vec<McpServer>,
    pub default_server: Option<Vec<u8>>,
}

impl View for McpServerRegistry {
    type V = RegistryV;

    open spec fn view(&self) -> RegistryV {
        RegistryV {
            servers: Seq::new(self.servers@.len(), |i: int| self.servers@[i]@),
            default_server: match self.default_server {
                Some(u) => Some(u@),
                None => None,
            },
        }
    }
}

/// Index of the record whose URL is `url`, searching from the front.
pub open spec fn find_url(rs: Seq<McpServerV>, url: Seq<u8>) -> Option<int>
    decreases rs.len(),
{
    if rs.len() == 0 {
        None
    } else if rs[0].url == url {
        Some(0)
    } else {
        match find_url(rs.subrange(1, rs.len() as int), url) {
            Some(i) => Some(i + 1),
            None => None,
        }
    }
}

/// Whether some record holds `url`.
pub open spec fn has_url(rs: Seq<McpServerV>, url: Seq<u8>) -> bool {
    find_url(rs, url) is Some
}

/// The session id recorded for `url`, when a record exists and holds
/// one.
pub open spec fn session_of(rs: Seq<McpServerV>, url: Seq<u8>) -> Option<Seq<u8>> {
    match find_url(rs, url) {
        Some(i) => rs[i].session_id,
        None => None,
    }
}

/// The fresh record `register` creates for `url` at time `now`.
pub open spec fn fresh_record(url: Seq<u8>, now: u64) -> McpServerV {
    McpServerV {
        url: url,
        name: k_server_at_prefix() + url,
        version: k_unknown_lc(),
        status: ServerStatus::Initializing,
        tools: Seq::empty(),
        last_health_check: now,
        session_id: None,
    }
}

/// What being registered means for the outcome of `register`.
pub enum RegisterOutcome {
    Registered,
    AlreadyRegistered,
}

/// The registry invariant: URLs are unique, and the default pointer is
/// the URL of the first record ever registered, or absent while nothing
/// is registered.
pub open spec fn registry_wf(r: RegistryV) -> bool {
    &&& forall|i: int, j: int|
        0 <= i < j < r.servers.len() ==> r.servers[i].url != r.servers[j].url
    &&& r.default_server == if r.servers.len() == 0 {
        None::<Seq<u8>>
    } else {
        Some(r.servers[0].url)
    }
}

/// `find_url` returns an index within bounds whose record holds the URL.
pub proof fn lemma_find_url(rs: Seq<McpServerV>, url: Seq<u8>)
    ensures
        match find_url(rs, url) {
            Some(i) => 0 <= i < rs.len() && rs[i].url == url,
            None => forall|i: int| 0 <= i < rs.len() ==> rs[i].url != url,
        },
    decreases rs.len(),
{
    if rs.len() > 0 && rs[0].url != url {
        let rest = rs.subrange(1, rs.len() as int);
        lemma_find_url(rest, url);
        match find_url(rest, url) {
            Some(k) => {
                assert(rest[k] == rs[k + 1]);
            },
            None => {
                assert forall|i: int| 0 <= i < rs.len() implies rs[i].url != url by {
                    if i > 0 {
                        assert(rest[i - 1] == rs[i]);
                    }
                }
            },
        }
    }
}

impl McpServerRegistry {
    /// A registry with nothing registered.
    pub fn new() -> (r: McpServerRegistry)
        ensures
            r@.servers == Seq::<McpServerV>::empty(),
            r@.default_server is None,
            registry_wf(r@),
    {
        let r = McpServerRegistry { servers: Vec::new(), default_server: None };
        proof {
            assert(r@.servers =~= Seq::<McpServerV>::empty());
        }
        r
    }

    /// Finds the position of the record for `url`.
    fn position_of(&self, url: &Vec<u8>) -> (r: Option<usize>)
        ensures
            match r {
                Some(i) => find_url(self@.servers, url@) == Some(i as int) && i < self@.servers.len(),
                None => find_url(self@.servers, url@) is None,
            },
    {
        proof {
            assert(self@.servers.subrange(0, self@.servers.len() as int) =~= self@.servers);
        }
        let mut i: usize = 0;
        while i < self.servers.len()
            invariant
                i <= self@.servers.len(),
                self@.servers.len() == self.servers@.len(),
                find_url(self@.servers, url@) == match find_url(
                    self@.servers.subrange(i as int, self@.servers.len() as int),
                    url@,
                ) {
                    Some(k) => Some(k + i),
                    None => None::<int>,
                },
            decreases self@.servers.len() - i,
        {
            let ghost rest = self@.servers.subrange(i as int, self@.servers.len() as int);
            proof {
                assert(rest[0] == self@.servers[i as int]);
                assert(rest.subrange(1, rest.len() as int) =~= self@.servers.subrange(
                    i + 1,
                    self@.servers.len() as int,
                ));
            }
            if crate::bytes::bytes_eq(&self.servers[i].url, url) {
                proof {
                    assert(self@.servers[i as int].url == url@);
                }
                return Some(i);
            }
            i = i + 1;
        }
        None
    }

    /// All records, in registration order.
    pub fn list(&self) -> (r: &Vec<McpServer>)
        ensures
            r == &self.servers,
    {
        &self.servers
    }

    /// Looks the record for `url` up.
    pub fn get<'a>(&'a self, url: &Vec<u8>) -> (r: Option<&'a McpServer>)
        ensures
            match r {
                Some(s) => find_url(self@.servers, url@) is Some && s@ == self@.servers[
                    find_url(self@.servers, url@)->0
                ],
                None => find_url(self@.servers, url@) is None,
            },
    {
        match self.position_of(url) {
            Some(i) => Some(&self.servers[i]),
            None => None,
        }
    }

    /// Registers `url`: a URL already present keeps its record untouched
    /// and reports `AlreadyRegistered`; a new URL is appended as a fresh
    /// `Initializing` record, and becomes the default if nothing was
    /// registered before. The default pointer never changes once set.
    pub fn register(&mut self, url: &Vec<u8>, now: u64) -> (r: RegisterOutcome)
        requires
            registry_wf(old(self)@),
        ensures
            registry_wf(final(self)@),
            final(self)@ == after_register(old(self)@, url@, now),
            has_url(old(self)@.servers, url@) ==> r is AlreadyRegistered && final(self)@
                == old(self)@,
            !has_url(old(self)@.servers, url@) ==> r is Registered && final(self)@.servers
                == old(self)@.servers.push(fresh_record(url@, now)) && final(self)@.default_server
                == if old(self)@.servers.len() == 0 {
                Some(url@)
            } else {
                old(self)@.default_server
            },
    {
        match self.position_of(url) {
            Some(_) => RegisterOutcome::AlreadyRegistered,
            None => {
                let mut u: Vec<u8> = Vec::new();
                crate::json::push_all(url, &mut u);
                let mut name: Vec<u8> = b_server_at_prefix();
                crate::json::push_all(url, &mut name);
                proof {
                    assert(u@ =~= url@);
                }
                let record = McpServer {
                    url: u,
                    name: name,
                    version: b_unknown_lc(),
                    status: ServerStatus::Initializing,
                    tools: Vec::new(),
                    last_health_check: now,
                    session_id: None,
                };
                proof {
                    assert(record@.tools =~= Seq::<McpToolV>::empty());
                    assert(record@ == fresh_record(url@, now));
                }
                let was_empty = self.servers.len() == 0;
                self.servers.push(record);
                if was_empty {
                    let mut u2: Vec<u8> = Vec::new();
                    crate::json::push_all(url, &mut u2);
                    proof {
                        assert(u2@ =~= url@);
                    }
                    self.default_server = Some(u2);
                }
                proof {
                    assert(final(self)@.servers =~= old(self)@.servers.push(
                        fresh_record(url@, now),
                    ));
                    lemma_find_url(old(self)@.servers, url@);
                }
                RegisterOutcome::Registered
            },
        }
    }
}


/// The record for `url` after a successful handshake: name, version,
/// tools and session id replaced by what the handshake discovered,
/// status `Connected`; url and health timestamp kept.
pub open spec fn connected_record(
    r: McpServerV,
    name: Seq<u8>,
    version: Seq<u8>,
    tools: Seq<McpToolV>,
    session_id: Option<Seq<u8>>,
) -> McpServerV {
    McpServerV {
        url: r.url,
        name: name,
        version: version,
        status: ServerStatus::Connected,
        tools: tools,
        last_health_check: r.last_health_check,
        session_id: session_id,
    }
}

/// The record for `url` after a failed handshake: only the status
/// changes, to `Failed`.
pub open spec fn failed_record(r: McpServerV) -> McpServerV {
    McpServerV {
        url: r.url,
        name: r.name,
        version: r.version,
        status: ServerStatus::Failed,
        tools: r.tools,
        last_health_check: r.last_health_check,
        session_id: r.session_id,
    }
}

impl McpServerRegistry {
    /// Commits a successful handshake for `url`: the record, whole and
    /// in one step, takes the discovered name, version, tools and
    /// session id and becomes `Connected`. Nothing else changes; an
    /// unknown URL changes nothing and reports `false`.
    pub fn commit_handshake_success(
        &mut self,
        url: &Vec<u8>,
        name: Vec<u8>,
        version: Vec<u8>,
        tools: Vec<McpTool>,
        session_id: Option<Vec<u8>>,
    ) -> (r: bool)
        requires
            registry_wf(old(self)@),
        ensures
            registry_wf(final(self)@),
            final(self)@.default_server == old(self)@.default_server,
            final(self)@ == after_success(
                old(self)@,
                url@,
                name@,
                version@,
                view_tools(tools@),
                opt_bytes_view(session_id),
            ),
            match find_url(old(self)@.servers, url@) {
                Some(k) => r && final(self)@.servers == old(self)@.servers.update(
                    k,
                    connected_record(
                        old(self)@.servers[k],
                        name@,
                        version@,
                        view_tools(tools@),
                        opt_bytes_view(session_id),
                    ),
                ),
                None => !r && final(self)@ == old(self)@,
            },
    {
        let ghost nv = name@;
        let ghost vv = version@;
        let ghost tv = view_tools(tools@);
        let ghost sv = opt_bytes_view(session_id);
        match self.position_of(url) {
            None => false,
            Some(i) => {
                self.servers[i].name = name;
                self.servers[i].version = version;
                self.servers[i].status = ServerStatus::Connected;
                self.servers[i].tools = tools;
                self.servers[i].session_id = session_id;
                proof {
                    let k = i as int;
                    assert(final(self)@.servers =~= old(self)@.servers.update(
                        k,
                        connected_record(old(self)@.servers[k], nv, vv, tv, sv),
                    ));
                    assert(final(self)@.servers[0].url == old(self)@.servers[0].url);
                }
                true
            },
        }
    }

    /// Commits a failed handshake for `url`: the record's status, and
    /// nothing else, becomes `Failed`. An unknown URL changes nothing
    /// and reports `false`.
    pub fn commit_handshake_failure(&mut self, url: &Vec<u8>) -> (r: bool)
        requires
            registry_wf(old(self)@),
        ensures
            registry_wf(final(self)@),
            final(self)@.default_server == old(self)@.default_server,
            final(self)@ == after_failure(old(self)@, url@),
            match find_url(old(self)@.servers, url@) {
                Some(k) => r && final(self)@.servers == old(self)@.servers.update(
                    k,
                    failed_record(old(self)@.servers[k]),
                ),
                None => !r && final(self)@ == old(self)@,
            },
    {
        match self.position_of(url) {
            None => false,
            Some(i) => {
                self.servers[i].status = ServerStatus::Failed;
                proof {
                    let k = i as int;
                    assert(final(self)@.servers =~= old(self)@.servers.update(
                        k,
                        failed_record(old(self)@.servers[k]),
                    ));
                    assert(final(self)@.servers[0].url == old(self)@.servers[0].url);
                }
                true
            },
        }
    }
}


// ------------------------------------------------------------------
// The registry's transitions, as functions on the model, and the laws
// that hold across them.
// ------------------------------------------------------------------

/// The registry after `register(url, now)`.
pub open spec fn after_register(r: RegistryV, url: Seq<u8>, now: u64) -> RegistryV {
    if has_url(r.servers, url) {
        r
    } else {
        RegistryV {
            servers: r.servers.push(fresh_record(url, now)),
            default_server: if r.servers.len() == 0 {
                Some(url)
            } else {
                r.default_server
            },
        }
    }
}

/// The registry after committing a successful handshake for `url`.
pub open spec fn after_success(
    r: RegistryV,
    url: Seq<u8>,
    name: Seq<u8>,
    version: Seq<u8>,
    tools: Seq<McpToolV>,
    session_id: Option<Seq<u8>>,
) -> RegistryV {
    match find_url(r.servers, url) {
        Some(k) => RegistryV {
            servers: r.servers.update(
                k,
                connected_record(r.servers[k], name, version, tools, session_id),
            ),
            default_server: r.default_server,
        },
        None => r,
    }
}

/// The registry after committing a failed handshake for `url`.
pub open spec fn after_failure(r: RegistryV, url: Seq<u8>) -> RegistryV {
    match find_url(r.servers, url) {
        Some(k) => RegistryV {
            servers: r.servers.update(k, failed_record(r.servers[k])),
            default_server: r.default_server,
        },
        None => r,
    }
}

/// Appending a record with a URL not yet present makes that record the
/// one `find_url` yields for the URL.
pub proof fn lemma_find_url_push_new(rs: Seq<McpServerV>, url: Seq<u8>, rec: McpServerV)
    requires
        !has_url(rs, url),
        rec.url == url,
    ensures
        find_url(rs.push(rec), url) == Some(rs.len() as int),
    decreases rs.len(),
{
    let ext = rs.push(rec);
    if rs.len() == 0 {
        assert(ext[0] == rec);
        assert(find_url(ext, url) == Some(0int));
    } else {
        assert(rs.subrange(1, rs.len() as int).push(rec) =~= ext.subrange(1, ext.len() as int));
        lemma_find_url_push_new(rs.subrange(1, rs.len() as int), url, rec);
    }
}

/// Replacing a record with one that keeps its URL does not move any
/// URL's position.
pub proof fn lemma_find_url_update(
    rs: Seq<McpServerV>,
    url: Seq<u8>,
    k: int,
    rec: McpServerV,
)
    requires
        0 <= k < rs.len(),
        rec.url == rs[k].url,
    ensures
        find_url(rs.update(k, rec), url) == find_url(rs, url),
    decreases rs.len(),
{
    let upd = rs.update(k, rec);
    if k == 0 {
        if rs[0].url == url {
        } else {
            assert(upd.subrange(1, upd.len() as int) =~= rs.subrange(1, rs.len() as int));
        }
    } else {
        assert(upd[0] == rs[0]);
        if rs[0].url == url {
        } else {
            assert(upd.subrange(1, upd.len() as int) =~= rs.subrange(1, rs.len() as int).update(
                k - 1,
                rec,
            ));
            lemma_find_url_update(rs.subrange(1, rs.len() as int), url, k - 1, rec);
        }
    }
}

/// The default pointer is the URL of the first record ever registered:
/// under the registry invariant, as soon as anything is registered the
/// default names the front record, which no transition replaces or
/// reorders.
pub proof fn lemma_default_is_first_url(r: RegistryV)
    requires
        registry_wf(r),
        r.servers.len() > 0,
    ensures
        r.default_server == Some(r.servers[0].url),
{
}

/// Registering any URL never moves a default pointer that is already
/// set, and committing a handshake, in either direction, never moves
/// the default pointer at all.
pub proof fn lemma_default_immutable(r: RegistryV, url: Seq<u8>, now: u64)
    requires
        registry_wf(r),
        r.default_server is Some,
    ensures
        after_register(r, url, now).default_server == r.default_server,
        forall|name: Seq<u8>, version: Seq<u8>, tools: Seq<McpToolV>, session_id: Option<Seq<u8>>|
            #[trigger] after_success(r, url, name, version, tools, session_id).default_server
                == r.default_server,
        after_failure(r, url).default_server == r.default_server,
{
    if !has_url(r.servers, url) {
        if r.servers.len() == 0 {
        }
    }
}


/// Registering a new URL and then committing a successful handshake
/// leaves the registry with a connected record for that URL whose name
/// and version are the discovered, non-empty ones and whose session id
/// is exactly what the server returned. The default pointer ends up on
/// the first registered URL.
pub proof fn lemma_register_then_success(
    r0: RegistryV,
    url: Seq<u8>,
    now: u64,
    name: Seq<u8>,
    version: Seq<u8>,
    tools: Seq<McpToolV>,
    session_id: Option<Seq<u8>>,
)
    requires
        registry_wf(r0),
        !has_url(r0.servers, url),
        name.len() > 0,
        version.len() > 0,
    ensures
        ({
            let r1 = after_register(r0, url, now);
            let r2 = after_success(r1, url, name, version, tools, session_id);
            &&& has_url(r2.servers, url)
            &&& {
                let k = find_url(r2.servers, url)->0;
                &&& r2.servers[k].status is Connected
                &&& r2.servers[k].name == name
                &&& r2.servers[k].name.len() > 0
                &&& r2.servers[k].version == version
                &&& r2.servers[k].session_id == session_id
            }
            &&& session_of(r2.servers, url) == session_id
            &&& r2.default_server == (if r0.servers.len() == 0 {
                Some(url)
            } else {
                r0.default_server
            })
        }),
{
    let r1 = after_register(r0, url, now);
    lemma_find_url_push_new(r0.servers, url, fresh_record(url, now));
    let k = find_url(r1.servers, url)->0;
    assert(r1.servers[k] == fresh_record(url, now));
    let rec = connected_record(r1.servers[k], name, version, tools, session_id);
    lemma_find_url_update(r1.servers, url, k, rec);
    let r2 = after_success(r1, url, name, version, tools, session_id);
    assert(find_url(r2.servers, url) == Some(k));
    assert(r2.servers[k] == rec);
}

/// Registering a new URL and then committing a failed handshake leaves
/// that URL's record `Failed`, and a default pointer that was already
/// set before the registration is untouched.
pub proof fn lemma_register_then_failure(r0: RegistryV, url: Seq<u8>, now: u64)
    requires
        registry_wf(r0),
        !has_url(r0.servers, url),
    ensures
        ({
            let r1 = after_register(r0, url, now);
            let r2 = after_failure(r1, url);
            &&& has_url(r2.servers, url)
            &&& r2.servers[find_url(r2.servers, url)->0].status is Failed
            &&& r0.default_server is Some ==> r2.default_server == r0.default_server
        }),
{
    let r1 = after_register(r0, url, now);
    lemma_find_url_push_new(r0.servers, url, fresh_record(url, now));
    let k = find_url(r1.servers, url)->0;
    let rec = failed_record(r1.servers[k]);
    lemma_find_url_update(r1.servers, url, k, rec);
    let r2 = after_failure(r1, url);
    assert(find_url(r2.servers, url) == Some(k));
    assert(r2.servers[k] == rec);
    if r0.default_server is Some {
        assert(r0.servers.len() > 0);
    }
}

} // verus!
