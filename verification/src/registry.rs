//! The server registry: one protocol server instance per repository
//! identifier, each on its own port with its own library set and response
//! cache. Starting is rejecting: a second start for a running id or a bound
//! port fails instead of silently replacing the instance.

use vstd::prelude::*;
use vstd::string::StringExecFns;
use crate::json::{fields_view, JsonVal, JsonValue};
use crate::json;
use crate::mcp::McpServerState;
use crate::strutil;
use crate::types::AgentLibrary;

verus! {

/// Lowest port a server may bind.
pub const MCP_PORT_MIN: u16 = 9500;

/// Highest port a server may bind.
pub const MCP_PORT_MAX: u16 = 9599;

/// Why a lifecycle command failed.
#[derive(Debug)]
pub enum RegistryError {
    /// A server for this repository id is already running.
    AlreadyRunning(String),
    /// The requested port lies outside the reserved range.
    PortOutOfRange(u16),
    /// Another registered server already holds this port.
    PortInUse(u16),
    /// Every port of the reserved range is taken.
    PortsExhausted,
    /// No server is registered under this repository id.
    NotFound(String),
}

pub ghost enum RegistryErrorView {
    AlreadyRunning(Seq<char>),
    PortOutOfRange(u16),
    PortInUse(u16),
    PortsExhausted,
    NotFound(Seq<char>),
}

impl View for RegistryError {
    type V = RegistryErrorView;

    open spec fn view(&self) -> RegistryErrorView {
        match self {
            RegistryError::AlreadyRunning(id) => RegistryErrorView::AlreadyRunning(id@),
            RegistryError::PortOutOfRange(p) => RegistryErrorView::PortOutOfRange(*p),
            RegistryError::PortInUse(p) => RegistryErrorView::PortInUse(*p),
            RegistryError::PortsExhausted => RegistryErrorView::PortsExhausted,
            RegistryError::NotFound(id) => RegistryErrorView::NotFound(id@),
        }
    }
}

/// One registered server: its repository id, bound port, and served state.
pub struct McpServerInstance {
    pub repository_id: String,
    pub port: u16,
    pub state: McpServerState,
}

/// Whether some registered instance carries this repository id.
pub open spec fn spec_registered(s: Seq<McpServerInstance>, id: Seq<char>) -> bool {
    exists|i: int| 0 <= i < s.len() && #[trigger] s[i].repository_id@ == id
}

/// Whether some registered instance holds this port.
pub open spec fn spec_port_used(s: Seq<McpServerInstance>, port: u16) -> bool {
    exists|i: int| 0 <= i < s.len() && #[trigger] s[i].port == port
}

/// Index of the first instance carrying this repository id.
pub open spec fn spec_index_of(s: Seq<McpServerInstance>, id: Seq<char>) -> Option<int>
    decreases s.len(),
{
    if s.len() == 0 {
        None
    } else if s.first().repository_id@ == id {
        Some(0)
    } else {
        match spec_index_of(s.drop_first(), id) {
            Some(j) => Some(j + 1),
            None => None,
        }
    }
}

/// The first port of the reserved range, counting up from `from`, that no
/// registered instance holds.
pub open spec fn spec_first_free_from(s: Seq<McpServerInstance>, from: int) -> Option<u16>
    decreases MCP_PORT_MAX + 1 - from,
    when from >= MCP_PORT_MIN
{
    if from > MCP_PORT_MAX {
        None
    } else if !spec_port_used(s, from as u16) {
        Some(from as u16)
    } else {
        spec_first_free_from(s, from + 1)
    }
}

/// `spec_index_of` finds an index carrying the id, and none when the id is
/// not registered.
pub proof fn lemma_index_of_registered(s: Seq<McpServerInstance>, id: Seq<char>)
    ensures
        match spec_index_of(s, id) {
            Some(i) => 0 <= i < s.len() && s[i].repository_id@ == id && forall|j: int|
                0 <= j < i ==> #[trigger] s[j].repository_id@ != id,
            None => !spec_registered(s, id),
        },
    decreases s.len(),
{
    if s.len() > 0 {
        lemma_index_of_registered(s.drop_first(), id);
        if s.first().repository_id@ != id {
            match spec_index_of(s.drop_first(), id) {
                Some(j) => {
                    assert(s[j + 1].repository_id@ == id) by {
                        assert(s.drop_first()[j] == s[j + 1]);
                    }
                    assert forall|k: int| 0 <= k < j + 1 implies #[trigger] s[k].repository_id@
                        != id by {
                        if k > 0 {
                            assert(s.drop_first()[k - 1] == s[k]);
                        }
                    }
                },
                None => {
                    assert forall|i: int| 0 <= i < s.len() implies #[trigger] s[i].repository_id@
                        != id by {
                        if i > 0 {
                            assert(s.drop_first()[i - 1] == s[i]);
                            assert(!spec_registered(s.drop_first(), id));
                        }
                    }
                },
            }
        }
    }
}

/// The registry of running server instances.
pub struct ServerRegistry {
    instances: Vec<McpServerInstance>,
}

impl View for ServerRegistry {
    type V = Seq<McpServerInstance>;

    closed spec fn view(&self) -> Seq<McpServerInstance> {
        self.instances@
    }
}

impl ServerRegistry {
    /// An empty registry.
    pub fn new() -> (r: Self)
        ensures
            r@ == Seq::<McpServerInstance>::empty(),
    {
        let r = ServerRegistry { instances: Vec::new() };
        proof {
            assert(r@ =~= Seq::<McpServerInstance>::empty());
        }
        r
    }

    /// Whether a server is registered under this repository id.
    #[verifier::loop_isolation(false)]
    pub fn is_registered(&self, repository_id: &str) -> (r: bool)
        ensures
            r == spec_registered(self@, repository_id@),
    {
        let n = self.instances.len();
        let mut i: usize = 0;
        while i < n
            invariant
                i <= n,
                forall|j: int| 0 <= j < i ==> #[trigger] self@[j].repository_id@
                    != repository_id@,
            decreases n - i,
        {
            if strutil::str_eq(self.instances[i].repository_id.as_str(), repository_id) {
                return true;
            }
            i = i + 1;
        }
        false
    }

    /// Whether a registered server holds this port.
    #[verifier::loop_isolation(false)]
    pub fn port_in_use(&self, port: u16) -> (r: bool)
        ensures
            r == spec_port_used(self@, port),
    {
        let n = self.instances.len();
        let mut i: usize = 0;
        while i < n
            invariant
                i <= n,
                forall|j: int| 0 <= j < i ==> #[trigger] self@[j].port != port,
            decreases n - i,
        {
            if self.instances[i].port == port {
                return true;
            }
            i = i + 1;
        }
        false
    }

    /// The first port of the reserved range that no registered server holds.
    #[verifier::loop_isolation(false)]
    pub fn first_free_port(&self) -> (r: Option<u16>)
        ensures
            r == spec_first_free_from(self@, MCP_PORT_MIN as int),
    {
        let mut p: u16 = MCP_PORT_MIN;
        while p <= MCP_PORT_MAX
            invariant
                MCP_PORT_MIN <= p <= MCP_PORT_MAX + 1,
                spec_first_free_from(self@, MCP_PORT_MIN as int) == spec_first_free_from(
                    self@,
                    p as int,
                ),
            decreases MCP_PORT_MAX + 1 - p,
        {
            if !self.port_in_use(p) {
                return Some(p);
            }
            p = p + 1;
        }
        None
    }

    /// Starts a server for `repository_id` serving `library`. Rejecting by
    /// design: a running id or an already-held port is an error, never a
    /// silent replacement. Without an explicit port, the first free port of
    /// the reserved range is taken; `Ok` returns the bound port and registers
    /// the instance with that single library and an empty response cache.
    pub fn start(
        &mut self,
        repository_id: String,
        port: Option<u16>,
        library: AgentLibrary,
    ) -> (r: Result<u16, RegistryError>)
        ensures
            spec_registered(old(self)@, repository_id@) ==> (r matches Err(e) && e@
                == RegistryErrorView::AlreadyRunning(repository_id@)
                && final(self)@ == old(self)@),
            !spec_registered(old(self)@, repository_id@) ==> match port {
                Some(p) => {
                    if !(MCP_PORT_MIN <= p <= MCP_PORT_MAX) {
                        r matches Err(e) && e@ == RegistryErrorView::PortOutOfRange(p)
                            && final(self)@ == old(self)@
                    } else if spec_port_used(old(self)@, p) {
                        r matches Err(e) && e@ == RegistryErrorView::PortInUse(p) && final(self)@
                            == old(self)@
                    } else {
                        r matches Ok(q) && q == p && spec_started(
                            old(self)@,
                            final(self)@,
                            repository_id@,
                            p,
                            library@,
                        )
                    }
                },
                None => match spec_first_free_from(old(self)@, MCP_PORT_MIN as int) {
                    Some(p) => r matches Ok(q) && q == p && spec_started(
                        old(self)@,
                        final(self)@,
                        repository_id@,
                        p,
                        library@,
                    ),
                    None => r matches Err(e) && e@ == RegistryErrorView::PortsExhausted
                        && final(self)@ == old(self)@,
                },
            },
    {
        if self.is_registered(repository_id.as_str()) {
            return Err(RegistryError::AlreadyRunning(repository_id));
        }
        let chosen: u16 = match port {
            Some(p) => {
                if !(MCP_PORT_MIN <= p && p <= MCP_PORT_MAX) {
                    return Err(RegistryError::PortOutOfRange(p));
                }
                if self.port_in_use(p) {
                    return Err(RegistryError::PortInUse(p));
                }
                p
            },
            None => match self.first_free_port() {
                Some(p) => p,
                None => {
                    return Err(RegistryError::PortsExhausted);
                },
            },
        };
        let mut state = McpServerState::new();
        state.agent_libraries.push(library);
        self.instances.push(McpServerInstance { repository_id, port: chosen, state });
        proof {
            assert(final(self)@.take(old(self)@.len() as int) =~= old(self)@);
            assert(crate::mcp::libs_view(final(self)@.last().state.agent_libraries@) =~= seq![
                library@,
            ]);
            assert(final(self)@.last().state.response_cache@ =~= Seq::<
                crate::mcp::CacheEntryView,
            >::empty());
        }
        Ok(chosen)
    }

    /// Stops the server registered under `repository_id`, removing it from
    /// the registry; an unregistered id is an error.
    #[verifier::loop_isolation(false)]
    pub fn stop(&mut self, repository_id: &str) -> (r: Result<(), RegistryError>)
        ensures
            match spec_index_of(old(self)@, repository_id@) {
                Some(i) => r is Ok && final(self)@ == old(self)@.remove(i),
                None => (r matches Err(e) && e@ == RegistryErrorView::NotFound(repository_id@)
                    && final(self)@ == old(self)@),
            },
    {
        let ghost pre = self@;
        let n = self.instances.len();
        let mut i: usize = 0;
        proof {
            assert(pre.skip(0) =~= pre);
        }
        while i < n
            invariant
                i <= n,
                n == self.instances@.len(),
                self@ == pre,
                forall|j: int| 0 <= j < i ==> #[trigger] pre[j].repository_id@ != repository_id@,
                spec_index_of(pre, repository_id@) == match spec_index_of(
                    pre.skip(i as int),
                    repository_id@,
                ) {
                    Some(k) => Some(k + i),
                    None => None,
                },
            decreases n - i,
        {
            proof {
                assert(pre.skip(i as int).first() == pre[i as int]);
                assert(pre.skip(i as int).drop_first() =~= pre.skip(i + 1));
            }
            if strutil::str_eq(self.instances[i].repository_id.as_str(), repository_id) {
                self.instances.remove(i);
                return Ok(());
            }
            i = i + 1;
        }
        proof {
            assert(pre.skip(n as int) =~= Seq::<McpServerInstance>::empty());
        }
        Err(RegistryError::NotFound(repository_id.to_owned()))
    }
}

/// What a successful start does to the registry: one instance is appended,
/// carrying the id, the bound port, the single given library, and an empty
/// response cache; everything already registered is untouched.
pub open spec fn spec_started(
    pre: Seq<McpServerInstance>,
    post: Seq<McpServerInstance>,
    id: Seq<char>,
    port: u16,
    library: crate::types::AgentLibraryView,
) -> bool {
    &&& post.len() == pre.len() + 1
    &&& post.take(pre.len() as int) == pre
    &&& post.last().repository_id@ == id
    &&& post.last().port == port
    &&& crate::mcp::libs_view(post.last().state.agent_libraries@) == seq![library]
    &&& post.last().state.response_cache@ == Seq::<crate::mcp::CacheEntryView>::empty()
}

/// After a successful start bound a port, that port is held in the registry,
/// so a second start naming the same port is refused with a port-in-use
/// error rather than succeeding silently.
pub proof fn lemma_same_port_conflicts(
    pre: Seq<McpServerInstance>,
    post: Seq<McpServerInstance>,
    id: Seq<char>,
    port: u16,
    library: crate::types::AgentLibraryView,
)
    requires
        spec_started(pre, post, id, port, library),
    ensures
        spec_port_used(post, port),
{
    assert(post[post.len() - 1].port == port);
}

/// The status object reported for a repository id: its port and `"running"`
/// when registered, `"stopped"` otherwise.
pub open spec fn spec_status_value(s: Seq<McpServerInstance>, id: Seq<char>) -> JsonVal {
    match spec_index_of(s, id) {
        Some(i) => JsonVal::Obj(
            seq![
                ("repository_id"@, JsonVal::Str(id)),
                ("port"@, JsonVal::Int(s[i].port as i64)),
                ("status"@, JsonVal::Str("running"@)),
            ],
        ),
        None => JsonVal::Obj(
            seq![
                ("repository_id"@, JsonVal::Str(id)),
                ("status"@, JsonVal::Str("stopped"@)),
            ],
        ),
    }
}

/// What a reload reports: the counts of the freshly parsed library, and
/// whether a running server took it over.
pub struct ReloadOutcome {
    pub prompt_count: usize,
    pub endpoint_count: usize,
    pub server_updated: bool,
}

impl ServerRegistry {
    /// The first instance registered under `repository_id`.
    #[verifier::loop_isolation(false)]
    fn find_instance<'a>(&'a self, repository_id: &str) -> (r: Option<&'a McpServerInstance>)
        ensures
            match r {
                Some(inst) => (spec_index_of(self@, repository_id@) matches Some(i) && *inst
                    == self@[i]),
                None => spec_index_of(self@, repository_id@) is None,
            },
    {
        let ghost pre = self@;
        let n = self.instances.len();
        let mut i: usize = 0;
        proof {
            assert(pre.skip(0) =~= pre);
        }
        while i < n
            invariant
                i <= n,
                spec_index_of(pre, repository_id@) == match spec_index_of(
                    pre.skip(i as int),
                    repository_id@,
                ) {
                    Some(k) => Some(k + i),
                    None => None,
                },
            decreases n - i,
        {
            proof {
                assert(pre.skip(i as int).first() == pre[i as int]);
                assert(pre.skip(i as int).drop_first() =~= pre.skip(i + 1));
            }
            if strutil::str_eq(self.instances[i].repository_id.as_str(), repository_id) {
                return Some(&self.instances[i]);
            }
            i = i + 1;
        }
        proof {
            assert(pre.skip(n as int) =~= Seq::<McpServerInstance>::empty());
        }
        None
    }

    /// The status object for `repository_id`: port and `"running"` when a
    /// server is registered under it, `"stopped"` otherwise.
    pub fn get_mcp_server_status(&self, repository_id: &str) -> (r: JsonValue)
        ensures
            r@ == spec_status_value(self@, repository_id@),
    {
        match self.find_instance(repository_id) {
            Some(inst) => {
                let mut f: Vec<(String, JsonValue)> = Vec::new();
                f.push(("repository_id".to_owned(), json::jstr(repository_id)));
                f.push(("port".to_owned(), JsonValue::Int(inst.port as i64)));
                f.push(("status".to_owned(), json::jstr("running")));
                let r = JsonValue::Obj(f);
                proof {
                    crate::json::lemma_fields_view(f@);
                    assert(fields_view(f@) =~= spec_status_value(self@, repository_id@)->Obj_0);
                }
                r
            },
            None => {
                let mut f: Vec<(String, JsonValue)> = Vec::new();
                f.push(("repository_id".to_owned(), json::jstr(repository_id)));
                f.push(("status".to_owned(), json::jstr("stopped")));
                let r = JsonValue::Obj(f);
                proof {
                    crate::json::lemma_fields_view(f@);
                    assert(fields_view(f@) =~= spec_status_value(self@, repository_id@)->Obj_0);
                }
                r
            },
        }
    }

    /// Hands a whole library set to the running instance for
    /// `repository_id`, replacing the set it serves; its cache, port and id
    /// are untouched, as is every other instance. An unregistered id is an
    /// error.
    #[verifier::loop_isolation(false)]
    pub fn load_libraries(&mut self, repository_id: &str, libraries: Vec<AgentLibrary>) -> (r:
        Result<(), RegistryError>)
        ensures
            match spec_index_of(old(self)@, repository_id@) {
                Some(i) => {
                    &&& r is Ok
                    &&& final(self)@.len() == old(self)@.len()
                    &&& (forall|j: int|
                        0 <= j < old(self)@.len() && j != i ==> final(self)@[j] == old(self)@[j])
                    &&& final(self)@[i].repository_id == old(self)@[i].repository_id
                    &&& final(self)@[i].port == old(self)@[i].port
                    &&& final(self)@[i].state.agent_libraries == libraries
                    &&& final(self)@[i].state.response_cache == old(self)@[i].state.response_cache
                },
                None => (r matches Err(e) && e@ == RegistryErrorView::NotFound(repository_id@)
                    && final(self)@ == old(self)@),
            },
    {
        let ghost pre = self@;
        let n = self.instances.len();
        let mut i: usize = 0;
        proof {
            assert(pre.skip(0) =~= pre);
        }
        while i < n
            invariant
                i <= n,
                n == self.instances@.len(),
                self@ == pre,
                spec_index_of(pre, repository_id@) == match spec_index_of(
                    pre.skip(i as int),
                    repository_id@,
                ) {
                    Some(k) => Some(k + i),
                    None => None,
                },
            decreases n - i,
        {
            proof {
                assert(pre.skip(i as int).first() == pre[i as int]);
                assert(pre.skip(i as int).drop_first() =~= pre.skip(i + 1));
            }
            if strutil::str_eq(self.instances[i].repository_id.as_str(), repository_id) {
                let mut inst = self.instances.remove(i);
                inst.state.agent_libraries = libraries;
                self.instances.insert(i, inst);
                proof {
                    assert forall|j: int| 0 <= j < pre.len() && j != i as int
                        implies final(self)@[j] == pre[j] by {
                        assert(final(self)@ == pre.remove(i as int).insert(i as int, inst));
                    }
                }
                return Ok(());
            }
            i = i + 1;
        }
        proof {
            assert(pre.skip(n as int) =~= Seq::<McpServerInstance>::empty());
        }
        Err(RegistryError::NotFound(repository_id.to_owned()))
    }

    /// Takes a freshly parsed library for `repository_id`: when a server is
    /// registered under the id, it serves just this library from now on
    /// (every other instance untouched); either way the outcome reports the
    /// library's prompt and endpoint counts and whether a server took it.
    pub fn reload(&mut self, repository_id: &str, library: AgentLibrary) -> (r: ReloadOutcome)
        ensures
            r.prompt_count == library@.prompts.len(),
            r.endpoint_count == library@.index.mcp_endpoints.len(),
            r.server_updated == spec_registered(old(self)@, repository_id@),
            match spec_index_of(old(self)@, repository_id@) {
                Some(i) => {
                    &&& final(self)@.len() == old(self)@.len()
                    &&& (forall|j: int|
                        0 <= j < old(self)@.len() && j != i ==> final(self)@[j] == old(self)@[j])
                    &&& final(self)@[i].repository_id == old(self)@[i].repository_id
                    &&& final(self)@[i].port == old(self)@[i].port
                    &&& crate::mcp::libs_view(final(self)@[i].state.agent_libraries@) == seq![
                        library@,
                    ]
                    &&& final(self)@[i].state.response_cache == old(self)@[i].state.response_cache
                },
                None => final(self)@ == old(self)@,
            },
    {
        proof {
            lemma_index_of_registered(self@, repository_id@);
        }
        let prompt_count = library.prompts.len();
        let endpoint_count = library.index.mcp_endpoints.len();
        let mut one: Vec<AgentLibrary> = Vec::new();
        one.push(library);
        proof {
            assert(crate::mcp::libs_view(one@) =~= seq![library@]);
        }
        let server_updated = match self.load_libraries(repository_id, one) {
            Ok(()) => true,
            Err(_) => false,
        };
        ReloadOutcome { prompt_count, endpoint_count, server_updated }
    }
}

} // verus!
