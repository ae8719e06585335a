//! The application state: configured servers, live connection summaries,
//! and the connect/disconnect decisions over them.
//!
//! The registry of live clients is kept apart (in the connections module);
//! this state holds what the rest of the application reads: each server's
//! configuration and status, and the tool summaries of each connection.
//! Connect flows read the configuration briefly to decide what to launch,
//! release it across the actual process work, and re-acquire it only to
//! commit the result; the functions here are those brief decisions.

use vstd::prelude::*;
use vstd::string::StringExecFns;

use crate::assoc::assoc_lookup;
use crate::assoc::lemma_assoc_lookup_absent;
use crate::assoc::lemma_assoc_lookup_at;
use crate::assoc::lemma_assoc_lookup_push_other;
use crate::assoc::lemma_assoc_lookup_remove_other;
use crate::assoc::lemma_assoc_lookup_update_other;
use crate::client::McpClient;
use crate::client::McpConnections;
use crate::client::McpToolDef;
use crate::error::AppError;
use crate::json::JsonValue;
use crate::text::dec_text;
use crate::text::str_eq;
use crate::text::u64_string;

verus! {

/// How a configured server is reached.
#[derive(Debug, PartialEq, Eq, Clone, Copy)]
pub enum ServerTransport {
    /// A spawned child process, spoken to over its standard streams.
    Stdio,
    /// A remote HTTP endpoint.
    Http,
}

/// Where a configured server stands.
#[derive(Debug, PartialEq, Eq, Clone, Copy)]
pub enum ServerStatus {
    /// A live, handshaken connection exists.
    Connected,
    /// A connect flow is under way.
    Connecting,
    /// No connection exists.
    Disconnected,
    /// The last connect attempt failed.
    Error,
}

/// One configured backend server.
pub struct ServerConfig {
    /// The stable identifier; the registry key and endpoint path segment.
    pub id: String,
    /// The display name.
    pub name: String,
    /// How the server is reached.
    pub transport: ServerTransport,
    /// For stdio: the executable to spawn.
    pub command: Option<String>,
    /// For stdio: the arguments.
    pub args: Option<Vec<String>>,
    /// For stdio: the environment overlay.
    pub env: Option<Vec<(String, String)>>,
    /// For http: the URL.
    pub url: Option<String>,
    /// Where the server stands.
    pub status: Option<ServerStatus>,
    /// When it last connected, as decimal seconds since the epoch.
    pub last_connected: Option<String>,
}

/// One discovered tool, annotated with its owning backend.
#[derive(Debug, PartialEq, Eq)]
pub struct McpTool {
    /// The tool name, as the backend declares it.
    pub name: String,
    /// The optional human-readable title.
    pub title: Option<String>,
    /// The optional description.
    pub description: Option<String>,
    /// The input schema, an opaque structured document.
    pub input_schema: JsonValue,
    /// The owning backend's identifier.
    pub server_id: String,
    /// The owning backend's display name.
    pub server_name: String,
}

/// The summary of one live connection.
pub struct ConnectionState {
    /// The connection's discovered tools.
    pub tools: Vec<McpTool>,
    /// The backend process identifier, when the platform reports one.
    pub child_pid: Option<u32>,
}

/// The embedding backend a deployment selects.
#[derive(Debug, PartialEq, Eq, Clone, Copy)]
pub enum EmbeddingProvider {
    /// A local Ollama endpoint.
    Ollama,
    /// The OpenAI API.
    Openai,
}

/// The embedding model configuration.
pub struct EmbeddingConfig {
    /// Which provider serves the embeddings.
    pub provider: EmbeddingProvider,
    /// The model name.
    pub model: String,
    /// The embedding dimension count.
    pub dimensions: u32,
}

impl Default for EmbeddingConfig {
    /// The default configuration.
    fn default() -> (r: EmbeddingConfig)
        ensures
            r.provider is Openai,
            r.model@ == "text-embedding-3-small"@,
            r.dimensions == 1536,
    {
        EmbeddingConfig {
            provider: EmbeddingProvider::Openai,
            model: String::from_str("text-embedding-3-small"),
            dimensions: 1536,
        }
    }
}

/// Whether tool discovery is switched on.
#[derive(Debug, PartialEq, Eq, Clone, Copy)]
pub struct DiscoveryStatus {
    /// The flag.
    pub enabled: bool,
}

/// The position of the first configured server with the identifier.
pub open spec fn server_pos(ss: Seq<ServerConfig>, id: Seq<char>) -> Option<int>
    decreases ss,
{
    if ss.len() == 0 {
        None
    } else if ss[0].id@ == id {
        Some(0int)
    } else {
        match server_pos(ss.drop_first(), id) {
            Some(i) => Some(i + 1),
            None => None,
        }
    }
}

/// `server_pos` finds the first match, and misses only when none exists.
pub proof fn lemma_server_pos(ss: Seq<ServerConfig>, id: Seq<char>)
    ensures
        match server_pos(ss, id) {
            Some(i) => 0 <= i < ss.len() && ss[i].id@ == id && forall|j: int|
                0 <= j < i ==> ss[j].id@ != id,
            None => forall|j: int| 0 <= j < ss.len() ==> ss[j].id@ != id,
        },
    decreases ss.len(),
{
    if ss.len() > 0 && ss[0].id@ != id {
        lemma_server_pos(ss.drop_first(), id);
        let d = ss.drop_first();
        match server_pos(d, id) {
            Some(i) => {
                assert(d[i] == ss[i + 1]);
                assert forall|j: int| 0 <= j < i + 1 implies ss[j].id@ != id by {
                    if j > 0 {
                        assert(d[j - 1] == ss[j]);
                    }
                }
            },
            None => {
                assert forall|j: int| 0 <= j < ss.len() implies ss[j].id@ != id by {
                    if j > 0 {
                        assert(d[j - 1] == ss[j]);
                    }
                }
            },
        }
    }
}

/// The whole application state outside the live client registry.
pub struct AppState {
    /// The configured servers.
    pub servers: Vec<ServerConfig>,
    /// The live connection summaries, keyed by backend identifier.
    pub connections: Vec<(String, ConnectionState)>,
    /// Identifiers of the AI-tool integrations under management.
    pub enabled_integrations: Vec<String>,
    /// The embedding model configuration.
    pub embedding_config: EmbeddingConfig,
    /// Whether tool discovery is switched on.
    pub tool_discovery_enabled: bool,
}

impl AppState {
    /// The connection summary for a backend identifier.
    pub open spec fn connection(&self, id: Seq<char>) -> Option<ConnectionState> {
        assoc_lookup(self.connections@, id)
    }

    /// Well-formedness: connection keys are distinct.
    pub open spec fn wf(&self) -> bool {
        forall|i: int, j: int|
            0 <= i < j < self.connections@.len() ==> #[trigger] self.connections@[i].0@
                != #[trigger] self.connections@[j].0@
    }

    /// An empty state.
    pub fn new() -> (r: AppState)
        ensures
            r.wf(),
            r.servers@.len() == 0,
            r.connections@.len() == 0,
            r.enabled_integrations@.len() == 0,
            !r.tool_discovery_enabled,
    {
        AppState {
            servers: Vec::new(),
            connections: Vec::new(),
            enabled_integrations: Vec::new(),
            embedding_config: EmbeddingConfig::default(),
            tool_discovery_enabled: false,
        }
    }
}

/// Copy a vector of strings.
fn clone_string_vec(v: &Vec<String>) -> (r: Vec<String>)
    ensures
        r@ == v@,
{
    let n = v.len();
    let mut out: Vec<String> = Vec::new();
    let mut i: usize = 0;
    while i < n
        invariant
            n == v@.len(),
            i <= n,
            out@.len() == i,
            forall|j: int| 0 <= j < i ==> out@[j] == v@[j],
        decreases n - i,
    {
        out.push(v[i].clone());
        i += 1;
    }
    proof {
        assert(out@ =~= v@);
    }
    out
}

/// Copy a vector of string pairs.
fn clone_string_pairs(v: &Vec<(String, String)>) -> (r: Vec<(String, String)>)
    ensures
        r@ == v@,
{
    let n = v.len();
    let mut out: Vec<(String, String)> = Vec::new();
    let mut i: usize = 0;
    while i < n
        invariant
            n == v@.len(),
            i <= n,
            out@.len() == i,
            forall|j: int| 0 <= j < i ==> out@[j] == v@[j],
        decreases n - i,
    {
        out.push((v[i].0.clone(), v[i].1.clone()));
        i += 1;
    }
    proof {
        assert(out@ =~= v@);
    }
    out
}

/// Find the first configured server with the identifier.
fn find_server_pos(servers: &Vec<ServerConfig>, id: &str) -> (r: Option<usize>)
    ensures
        match r {
            Some(i) => server_pos(servers@, id@) == Some(i as int),
            None => server_pos(servers@, id@) is None,
        },
{
    let n = servers.len();
    let mut i: usize = 0;
    while i < n
        invariant
            n == servers@.len(),
            i <= n,
            forall|j: int| 0 <= j < i ==> servers@[j].id@ != id@,
        decreases n - i,
    {
        if str_eq(servers[i].id.as_str(), id) {
            proof {
                lemma_server_pos(servers@, id@);
                match server_pos(servers@, id@) {
                    Some(p) => {
                        if p < i {
                            assert(servers@[p].id@ != id@);
                        }
                        if p > i {
                            assert(servers@[i as int].id@ != id@);
                        }
                    },
                    None => {
                        assert(servers@[i as int].id@ != id@);
                    },
                }
            }
            return Some(i);
        }
        i += 1;
    }
    proof {
        lemma_server_pos(servers@, id@);
        match server_pos(servers@, id@) {
            Some(p) => {
                assert(servers@[p].id@ != id@);
            },
            None => {},
        }
    }
    None
}

/// What a connect flow must launch: the executable, its arguments and its
/// environment overlay.
#[derive(Debug, PartialEq, Eq)]
pub struct LaunchSpec {
    /// The executable to spawn.
    pub command: String,
    /// The arguments.
    pub args: Vec<String>,
    /// The environment overlay.
    pub env: Vec<(String, String)>,
}

impl AppState {
    /// Begin a connect flow: check that the server exists, is not already
    /// connected, and speaks stdio with a command configured; mark it
    /// connecting and hand back what to launch. The state is read and
    /// updated briefly; the process work happens outside, against the
    /// returned launch specification.
    pub fn prepare_connect(&mut self, id: &str) -> (r: Result<LaunchSpec, AppError>)
        ensures
            final(self).connections == old(self).connections,
            final(self).enabled_integrations == old(self).enabled_integrations,
            final(self).embedding_config == old(self).embedding_config,
            final(self).tool_discovery_enabled == old(self).tool_discovery_enabled,
            match server_pos(old(self).servers@, id@) {
                None => {
                    &&& r matches Err(e) && e is ServerNotFound
                    &&& *final(self) == *old(self)
                },
                Some(i) => {
                    let srv = old(self).servers@[i];
                    if srv.status == Some(ServerStatus::Connected) {
                        &&& r matches Err(e) && e is AlreadyConnected
                        &&& *final(self) == *old(self)
                    } else if !(srv.transport is Stdio) {
                        &&& r matches Err(e) && e is Transport
                        &&& *final(self) == *old(self)
                    } else if srv.command is None {
                        &&& r matches Err(e) && e is ConnectionFailed
                        &&& *final(self) == *old(self)
                    } else {
                        &&& r matches Ok(ls)
                        &&& ls.command@ == srv.command->0@
                        &&& ls.args@ == match srv.args {
                            Some(a) => a@,
                            None => Seq::<String>::empty(),
                        }
                        &&& ls.env@ == match srv.env {
                            Some(e) => e@,
                            None => Seq::<(String, String)>::empty(),
                        }
                        &&& final(self).servers@ == old(self).servers@.update(
                            i,
                            ServerConfig { status: Some(ServerStatus::Connecting), ..srv },
                        )
                    }
                },
            },
    {
        let i = match find_server_pos(&self.servers, id) {
            Some(i) => i,
            None => {
                return Err(AppError::ServerNotFound(String::from_str(id)));
            },
        };
        proof {
            lemma_server_pos(self.servers@, id@);
        }
        let already = match &self.servers[i].status {
            Some(ServerStatus::Connected) => true,
            _ => false,
        };
        if already {
            return Err(AppError::AlreadyConnected(String::from_str(id)));
        }
        match &self.servers[i].transport {
            ServerTransport::Stdio => {},
            _ => {
                return Err(AppError::Transport(String::from_str(
                    "HTTP transport not yet implemented",
                )));
            },
        }
        let command = match &self.servers[i].command {
            Some(c) => c.clone(),
            None => {
                return Err(AppError::ConnectionFailed(String::from_str("No command specified")));
            },
        };
        let args = match &self.servers[i].args {
            Some(a) => clone_string_vec(a),
            None => Vec::new(),
        };
        let env = match &self.servers[i].env {
            Some(e) => clone_string_pairs(e),
            None => Vec::new(),
        };
        let elem = &mut self.servers[i];
        elem.status = Some(ServerStatus::Connecting);
        Ok(LaunchSpec { command, args, env })
    }

    /// Record one connection summary under its identifier, replacing any
    /// entry already present.
    fn set_connection(&mut self, id: &str, cs: ConnectionState)
        requires
            old(self).wf(),
        ensures
            final(self).wf(),
            final(self).connection(id@) == Some(cs),
            forall|k: Seq<char>| k != id@ ==> final(self).connection(k) == old(self).connection(k),
            final(self).servers == old(self).servers,
            final(self).enabled_integrations == old(self).enabled_integrations,
            final(self).embedding_config == old(self).embedding_config,
            final(self).tool_discovery_enabled == old(self).tool_discovery_enabled,
    {
        let n = self.connections.len();
        let mut i: usize = 0;
        while i < n
            invariant
                *self == *old(self),
                old(self).wf(),
                n == self.connections@.len(),
                i <= n,
                forall|j: int| 0 <= j < i ==> self.connections@[j].0@ != id@,
            decreases n - i,
        {
            if str_eq(self.connections[i].0.as_str(), id) {
                let ghost oldpairs = self.connections@;
                let ghost csv = cs;
                let elem = &mut self.connections[i];
                elem.1 = cs;
                proof {
                    let np = self.connections@;
                    assert(np == oldpairs.update(i as int, (oldpairs[i as int].0, csv)));
                    assert forall|a: int, b: int|
                        0 <= a < b < np.len() implies #[trigger] np[a].0@ != #[trigger] np[b].0@ by {
                        assert(np[a].0 == oldpairs[a].0 && np[b].0 == oldpairs[b].0);
                        assert(oldpairs[a].0@ != oldpairs[b].0@);
                    }
                    assert forall|j: int| 0 <= j < i implies np[j].0@ != id@ by {
                        assert(np[j] == oldpairs[j]);
                    }
                    lemma_assoc_lookup_at(np, id@, i as int);
                    assert forall|k: Seq<char>| k != id@ implies assoc_lookup(np, k)
                        == assoc_lookup(oldpairs, k) by {
                        lemma_assoc_lookup_update_other(oldpairs, i as int, csv, k);
                    }
                }
                return;
            }
            i += 1;
        }
        let ghost oldpairs = self.connections@;
        self.connections.push((String::from_str(id), cs));
        proof {
            let np = self.connections@;
            assert forall|a: int, b: int|
                0 <= a < b < np.len() implies #[trigger] np[a].0@ != #[trigger] np[b].0@ by {
                if b < np.len() - 1 {
                    assert(np[a] == oldpairs[a] && np[b] == oldpairs[b]);
                    assert(oldpairs[a].0@ != oldpairs[b].0@);
                } else {
                    assert(np[a] == oldpairs[a]);
                }
            }
            assert forall|j: int| 0 <= j < np.len() - 1 implies np[j].0@ != id@ by {
                assert(np[j] == oldpairs[j]);
            }
            lemma_assoc_lookup_at(np, id@, np.len() - 1);
            assert forall|k: Seq<char>| k != id@ implies assoc_lookup(np, k) == assoc_lookup(
                oldpairs,
                k,
            ) by {
                lemma_assoc_lookup_push_other(oldpairs, np[np.len() - 1], k);
            }
        }
    }

    /// Drop the connection summary under an identifier, if one is present.
    fn remove_connection(&mut self, id: &str)
        requires
            old(self).wf(),
        ensures
            final(self).wf(),
            final(self).connection(id@) is None,
            forall|k: Seq<char>| k != id@ ==> final(self).connection(k) == old(self).connection(k),
            final(self).servers == old(self).servers,
            final(self).enabled_integrations == old(self).enabled_integrations,
            final(self).embedding_config == old(self).embedding_config,
            final(self).tool_discovery_enabled == old(self).tool_discovery_enabled,
    {
        let n = self.connections.len();
        let mut i: usize = 0;
        while i < n
            invariant
                *self == *old(self),
                old(self).wf(),
                n == self.connections@.len(),
                i <= n,
                forall|j: int| 0 <= j < i ==> self.connections@[j].0@ != id@,
            decreases n - i,
        {
            if str_eq(self.connections[i].0.as_str(), id) {
                let ghost oldpairs = self.connections@;
                self.connections.remove(i);
                proof {
                    oldpairs.remove_ensures(i as int);
                    let np = self.connections@;
                    assert forall|a: int, b: int|
                        0 <= a < b < np.len() implies #[trigger] np[a].0@ != #[trigger] np[b].0@ by {
                        let a0: int = if a < i { a } else { a + 1 };
                        let b0: int = if b < i { b } else { b + 1 };
                        assert(np[a] == oldpairs[a0] && np[b] == oldpairs[b0]);
                        assert(oldpairs[a0].0@ != oldpairs[b0].0@);
                    }
                    assert forall|j: int| 0 <= j < np.len() implies #[trigger] np[j].0@ != id@ by {
                        let j0: int = if j < i { j } else { j + 1 };
                        assert(np[j] == oldpairs[j0]);
                        if j0 != i {
                            assert(oldpairs[j0].0@ != oldpairs[i as int].0@);
                        }
                    }
                    lemma_assoc_lookup_absent(np, id@);
                    assert forall|k: Seq<char>| k != id@ implies assoc_lookup(np, k)
                        == assoc_lookup(oldpairs, k) by {
                        lemma_assoc_lookup_remove_other(oldpairs, i as int, k);
                    }
                }
                return;
            }
            i += 1;
        }
        proof {
            lemma_assoc_lookup_absent(self.connections@, id@);
        }
    }
}

/// String options agree on their text.
pub open spec fn opt_str_eq(a: Option<String>, b: Option<String>) -> bool {
    match (a, b) {
        (Option::None, Option::None) => true,
        (Option::Some(x), Option::Some(y)) => x@ == y@,
        _ => false,
    }
}

/// Each summary tool carries one discovered descriptor's members, plus the
/// owning backend's identifier and display name.
pub open spec fn tools_annotated(
    ms: Seq<McpTool>,
    ts: Seq<McpToolDef>,
    sid: Seq<char>,
    sname: Seq<char>,
) -> bool {
    &&& ms.len() == ts.len()
    &&& forall|i: int|
        0 <= i < ms.len() ==> {
            &&& (#[trigger] ms[i]).name@ == ts[i].name@
            &&& opt_str_eq(ms[i].title, ts[i].title)
            &&& opt_str_eq(ms[i].description, ts[i].description)
            &&& ms[i].input_schema@ == ts[i].input_schema@
            &&& ms[i].server_id@ == sid
            &&& ms[i].server_name@ == sname
        }
}

/// Copy an optional string.
fn clone_opt_string(v: &Option<String>) -> (r: Option<String>)
    ensures
        opt_str_eq(r, *v),
{
    match v {
        Some(s) => Some(s.clone()),
        None => None,
    }
}

impl AppState {
    /// Commit a successful connect: mark the server connected, record when,
    /// store the connection summary built from the discovered tools, and
    /// register the live client. The client must have completed its
    /// handshake; registration happens only here, after the whole
    /// handshake has succeeded.
    pub fn commit_connect(
        &mut self,
        conns: &mut McpConnections,
        id: &str,
        client: McpClient,
        now: String,
    )
        requires
            old(self).wf(),
            old(conns).wf(),
            client.ready(),
        ensures
            final(self).wf(),
            final(conns).wf(),
            final(conns).lookup(id@) == Some(client),
            forall|k: Seq<char>| k != id@ ==> final(conns).lookup(k) == old(conns).lookup(k),
            match final(self).connection(id@) {
                Some(cs) => {
                    &&& tools_annotated(
                        cs.tools@,
                        client.tools@,
                        id@,
                        match server_pos(old(self).servers@, id@) {
                            Some(i) => old(self).servers@[i].name@,
                            None => Seq::<char>::empty(),
                        },
                    )
                    &&& cs.child_pid == client.transport.child_pid
                },
                None => false,
            },
            forall|k: Seq<char>| k != id@ ==> final(self).connection(k) == old(self).connection(k),
            match server_pos(old(self).servers@, id@) {
                Some(i) => final(self).servers@ == old(self).servers@.update(
                    i,
                    ServerConfig {
                        status: Some(ServerStatus::Connected),
                        last_connected: Some(now),
                        ..old(self).servers@[i]
                    },
                ),
                None => final(self).servers == old(self).servers,
            },
            final(self).enabled_integrations == old(self).enabled_integrations,
            final(self).embedding_config == old(self).embedding_config,
            final(self).tool_discovery_enabled == old(self).tool_discovery_enabled,
    {
        let server_name: String = match find_server_pos(&self.servers, id) {
            Some(i) => {
                proof {
                    lemma_server_pos(self.servers@, id@);
                }
                let name = self.servers[i].name.clone();
                let elem = &mut self.servers[i];
                elem.status = Some(ServerStatus::Connected);
                elem.last_connected = Some(now);
                name
            },
            None => String::new(),
        };
        let n = client.tools.len();
        let mut tools: Vec<McpTool> = Vec::new();
        let mut i: usize = 0;
        while i < n
            invariant
                n == client.tools@.len(),
                i <= n,
                tools@.len() == i,
                forall|j: int|
                    0 <= j < i ==> {
                        &&& (#[trigger] tools@[j]).name@ == client.tools@[j].name@
                        &&& opt_str_eq(tools@[j].title, client.tools@[j].title)
                        &&& opt_str_eq(tools@[j].description, client.tools@[j].description)
                        &&& tools@[j].input_schema@ == client.tools@[j].input_schema@
                        &&& tools@[j].server_id@ == id@
                        &&& tools@[j].server_name@ == server_name@
                    },
            decreases n - i,
        {
            let t = &client.tools[i];
            tools.push(
                McpTool {
                    name: t.name.clone(),
                    title: clone_opt_string(&t.title),
                    description: clone_opt_string(&t.description),
                    input_schema: t.input_schema.deep_clone(),
                    server_id: String::from_str(id),
                    server_name: server_name.clone(),
                },
            );
            i += 1;
        }
        let cs = ConnectionState { tools, child_pid: client.child_pid() };
        self.set_connection(id, cs);
        conns.insert(String::from_str(id), client);
    }

    /// Record a failed connect: mark the server errored, when it exists.
    pub fn fail_connect(&mut self, id: &str)
        ensures
            final(self).connections == old(self).connections,
            final(self).enabled_integrations == old(self).enabled_integrations,
            final(self).embedding_config == old(self).embedding_config,
            final(self).tool_discovery_enabled == old(self).tool_discovery_enabled,
            match server_pos(old(self).servers@, id@) {
                Some(i) => final(self).servers@ == old(self).servers@.update(
                    i,
                    ServerConfig { status: Some(ServerStatus::Error), ..old(self).servers@[i] },
                ),
                None => *final(self) == *old(self),
            },
    {
        match find_server_pos(&self.servers, id) {
            Some(i) => {
                proof {
                    lemma_server_pos(self.servers@, id@);
                }
                let elem = &mut self.servers[i];
                elem.status = Some(ServerStatus::Error);
            },
            None => {},
        }
    }

    /// Commit a disconnect: mark the server disconnected and drop the
    /// connection summary. The live client must have been removed from the
    /// registry and shut down first; a missing server configuration is
    /// reported, not swallowed.
    pub fn disconnect_commit(&mut self, id: &str) -> (r: Result<(), AppError>)
        requires
            old(self).wf(),
        ensures
            final(self).wf(),
            r is Ok <==> server_pos(old(self).servers@, id@) is Some,
            r matches Err(e) ==> e is ServerNotFound && *final(self) == *old(self),
            r is Ok ==> {
                &&& final(self).servers@ == old(self).servers@.update(
                    server_pos(old(self).servers@, id@)->0,
                    ServerConfig {
                        status: Some(ServerStatus::Disconnected),
                        ..old(self).servers@[server_pos(old(self).servers@, id@)->0]
                    },
                )
                &&& final(self).connection(id@) is None
                &&& forall|k: Seq<char>|
                    k != id@ ==> final(self).connection(k) == old(self).connection(k)
            },
            final(self).enabled_integrations == old(self).enabled_integrations,
            final(self).embedding_config == old(self).embedding_config,
            final(self).tool_discovery_enabled == old(self).tool_discovery_enabled,
    {
        let i = match find_server_pos(&self.servers, id) {
            Some(i) => i,
            None => {
                return Err(AppError::ServerNotFound(String::from_str(id)));
            },
        };
        proof {
            lemma_server_pos(self.servers@, id@);
        }
        let elem = &mut self.servers[i];
        elem.status = Some(ServerStatus::Disconnected);
        self.remove_connection(id);
        Ok(())
    }
}

/// Copy one tool summary.
fn clone_mcp_tool(t: &McpTool) -> (r: McpTool)
    ensures
        r.name@ == t.name@,
        opt_str_eq(r.title, t.title),
        opt_str_eq(r.description, t.description),
        r.input_schema@ == t.input_schema@,
        r.server_id@ == t.server_id@,
        r.server_name@ == t.server_name@,
{
    McpTool {
        name: t.name.clone(),
        title: clone_opt_string(&t.title),
        description: clone_opt_string(&t.description),
        input_schema: t.input_schema.deep_clone(),
        server_id: t.server_id.clone(),
        server_name: t.server_name.clone(),
    }
}

/// A copy carries a tool summary's members, with the name namespaced as
/// `serverName.toolName` when asked.
pub open spec fn tool_copied(r: McpTool, t: McpTool, namespaced: bool) -> bool {
    &&& r.name@ == if namespaced {
        t.server_name@ + seq!['.'] + t.name@
    } else {
        t.name@
    }
    &&& opt_str_eq(r.title, t.title)
    &&& opt_str_eq(r.description, t.description)
    &&& r.input_schema@ == t.input_schema@
    &&& r.server_id@ == t.server_id@
    &&& r.server_name@ == t.server_name@
}

/// The tools of one connected backend, under their original names. An
/// identifier with no live connection is reported, not answered empty.
pub fn list_tools(state: &AppState, id: &str) -> (r: Result<Vec<McpTool>, AppError>)
    ensures
        r is Ok <==> state.connection(id@) is Some,
        match r {
            Ok(ts) => {
                &&& ts@.len() == state.connection(id@)->0.tools@.len()
                &&& forall|i: int|
                    0 <= i < ts@.len() ==> tool_copied(
                        #[trigger] ts@[i],
                        state.connection(id@)->0.tools@[i],
                        false,
                    )
            },
            Err(e) => e is ServerNotFound,
        },
{
    let n = state.connections.len();
    let mut ci: usize = 0;
    while ci < n
        invariant
            n == state.connections@.len(),
            ci <= n,
            forall|j: int| 0 <= j < ci ==> state.connections@[j].0@ != id@,
        decreases n - ci,
    {
        if str_eq(state.connections[ci].0.as_str(), id) {
            proof {
                lemma_assoc_lookup_at(state.connections@, id@, ci as int);
            }
            let tools = &state.connections[ci].1.tools;
            let tn = tools.len();
            let mut out: Vec<McpTool> = Vec::new();
            let mut ti: usize = 0;
            while ti < tn
                invariant
                    tn == tools@.len(),
                    ti <= tn,
                    out@.len() == ti,
                    forall|j: int|
                        0 <= j < ti ==> tool_copied(#[trigger] out@[j], tools@[j], false),
                decreases tn - ti,
            {
                out.push(clone_mcp_tool(&tools[ti]));
                ti += 1;
            }
            return Ok(out);
        }
        ci += 1;
    }
    proof {
        lemma_assoc_lookup_absent(state.connections@, id@);
    }
    Err(AppError::ServerNotFound(String::from_str(id)))
}

/// The tools of every connected backend, each under its namespaced
/// `serverName.toolName`.
pub fn list_all_tools(state: &AppState) -> (r: Vec<McpTool>)
    ensures
        r@.len() == crate::gateway::all_tools(state.connections@).len(),
        forall|i: int|
            0 <= i < r@.len() ==> tool_copied(
                #[trigger] r@[i],
                crate::gateway::all_tools(state.connections@)[i],
                true,
            ),
{
    let cn = state.connections.len();
    let mut out: Vec<McpTool> = Vec::new();
    let mut ci: usize = 0;
    proof {
        assert(crate::gateway::all_tools(state.connections@.take(0)) =~= Seq::<McpTool>::empty());
    }
    while ci < cn
        invariant
            cn == state.connections@.len(),
            ci <= cn,
            out@.len() == crate::gateway::all_tools(state.connections@.take(ci as int)).len(),
            forall|k: int|
                0 <= k < out@.len() ==> tool_copied(
                    #[trigger] out@[k],
                    crate::gateway::all_tools(state.connections@.take(ci as int))[k],
                    true,
                ),
        decreases cn - ci,
    {
        let ghost pre = crate::gateway::all_tools(state.connections@.take(ci as int));
        let tools = &state.connections[ci].1.tools;
        let tn = tools.len();
        let mut ti: usize = 0;
        while ti < tn
            invariant
                cn == state.connections@.len(),
                ci < cn,
                tn == tools@.len(),
                tools == &state.connections@[ci as int].1.tools,
                ti <= tn,
                pre == crate::gateway::all_tools(state.connections@.take(ci as int)),
                out@.len() == pre.len() + ti,
                forall|k: int|
                    0 <= k < pre.len() ==> tool_copied(#[trigger] out@[k], pre[k], true),
                forall|k: int|
                    0 <= k < ti ==> tool_copied(#[trigger] out@[pre.len() + k], tools@[k], true),
            decreases tn - ti,
        {
            let t = &tools[ti];
            let mut namespaced = clone_mcp_tool(t);
            let mut nm = t.server_name.clone();
            proof {
                reveal_strlit(".");
                assert("."@ =~= seq!['.']);
            }
            nm.append(".");
            nm.append(t.name.as_str());
            namespaced.name = nm;
            out.push(namespaced);
            ti += 1;
        }
        proof {
            let tk = state.connections@.take(ci + 1);
            assert(tk.drop_last() =~= state.connections@.take(ci as int));
            assert(tk.last() == state.connections@[ci as int]);
            assert(crate::gateway::all_tools(tk) == pre
                + state.connections@[ci as int].1.tools@);
            assert forall|k: int|
                0 <= k < out@.len() implies tool_copied(
                #[trigger] out@[k],
                crate::gateway::all_tools(tk)[k],
                true,
            ) by {
                if k < pre.len() {
                    assert(crate::gateway::all_tools(tk)[k] == pre[k]);
                } else {
                    let j = k - pre.len();
                    assert(crate::gateway::all_tools(tk)[k] == tools@[j]);
                    assert(tool_copied(out@[pre.len() + j], tools@[j], true));
                }
            }
        }
        ci += 1;
    }
    proof {
        assert(state.connections@.take(cn as int) =~= state.connections@);
    }
    out
}

/// Relies on `std::time::SystemTime::now` and `duration_since` the epoch:
/// the wall clock as whole seconds. Nothing is assumed of the clock's
/// value; a clock before the epoch reads as zero.
#[verifier::external_body]
fn now_unix_seconds() -> u64 {
    std::time::SystemTime::now()
        .duration_since(std::time::UNIX_EPOCH)
        .map(|d| d.as_secs())
        .unwrap_or(0)
}

/// The wall clock as decimal seconds since the epoch.
pub fn chrono_now() -> (r: String)
    ensures
        exists|n: u64| r@ == dec_text(n as nat),
{
    let n = now_unix_seconds();
    let r = u64_string(n);
    proof {
        assert(r@ == dec_text(n as nat));
    }
    r
}

} // verus!
