//! The gateway dispatch: one shared MCP endpoint over every connected
//! backend.
//!
//! Inbound JSON-RPC requests are routed by method. Tool names are
//! namespaced as `serverName.toolName`: the aggregated listing derives
//! them, and a call parses its compound name to resolve the backend before
//! forwarding. Failures become JSON-RPC error envelopes, never raw HTTP
//! error statuses; the two exceptions, refusing GET and refusing a foreign
//! origin, live with the HTTP shaping.

use vstd::prelude::*;
use vstd::string::StrSliceExecFns;
use vstd::string::StringExecFns;

use crate::client::CallToolResult;
use crate::client::McpConnections;
use crate::client::call_tool_result_value;
use crate::error::AppError;
use crate::json::JVal;
use crate::json::JsonValue;
use crate::json::jfields_of;
use crate::json::jvals_of;
use crate::json::lemma_jfields_of;
use crate::json::lemma_jvals_of;
use crate::json::lemma_lookup_absent;
use crate::json::lemma_lookup_at;
use crate::json::obj_field;
use crate::rpc::CODE_INTERNAL_ERROR;
use crate::rpc::CODE_INVALID_PARAMS;
use crate::rpc::is_error_response;
use crate::rpc::is_result_response;
use crate::rpc::make_error_response;
use crate::rpc::make_result_response;
use crate::rpc::msg_id;
use crate::rpc::response_result;
use crate::state::AppState;
use crate::state::ConnectionState;
use crate::state::McpTool;
use crate::text::str_eq;

verus! {

/// The position of the first dot in a compound tool name.
pub open spec fn dot_pos(s: Seq<char>) -> Option<int>
    decreases s,
{
    if s.len() == 0 {
        None
    } else if s[0] == '.' {
        Some(0int)
    } else {
        match dot_pos(s.drop_first()) {
            Some(i) => Some(i + 1),
            None => None,
        }
    }
}

/// `dot_pos` finds the first dot, and misses only when none exists.
pub proof fn lemma_dot_pos(s: Seq<char>)
    ensures
        match dot_pos(s) {
            Some(i) => 0 <= i < s.len() && s[i] == '.' && forall|j: int| 0 <= j < i ==> s[j] != '.',
            None => forall|j: int| 0 <= j < s.len() ==> s[j] != '.',
        },
    decreases s.len(),
{
    if s.len() > 0 && s[0] != '.' {
        lemma_dot_pos(s.drop_first());
        let d = s.drop_first();
        match dot_pos(d) {
            Some(i) => {
                assert(d[i] == s[i + 1]);
                assert forall|j: int| 0 <= j < i + 1 implies s[j] != '.' by {
                    if j > 0 {
                        assert(d[j - 1] == s[j]);
                    }
                }
            },
            None => {
                assert forall|j: int| 0 <= j < s.len() implies s[j] != '.' by {
                    if j > 0 {
                        assert(d[j - 1] == s[j]);
                    }
                }
            },
        }
    }
}

/// Split a compound `serverName.toolName` at its first dot.
fn split_at_dot(s: &str) -> (r: Option<(String, String)>)
    ensures
        match r {
            Some((a, b)) => {
                &&& dot_pos(s@) is Some
                &&& a@ == s@.take(dot_pos(s@)->0)
                &&& b@ == s@.skip(dot_pos(s@)->0 + 1)
            },
            None => dot_pos(s@) is None,
        },
{
    let n = s.unicode_len();
    let mut i: usize = 0;
    while i < n
        invariant
            n == s@.len(),
            i <= n,
            forall|j: int| 0 <= j < i ==> s@[j] != '.',
        decreases n - i,
    {
        if s.get_char(i) == '.' {
            proof {
                lemma_dot_pos(s@);
                match dot_pos(s@) {
                    Some(p) => {
                        if p < i {
                            assert(s@[p] != '.');
                        }
                        if p > i {
                            assert(s@[i as int] != '.');
                        }
                    },
                    None => {
                        assert(s@[i as int] != '.');
                    },
                }
            }
            let a = s.substring_char(0, i);
            let b = s.substring_char(i + 1, n);
            proof {
                assert(a@ =~= s@.take(i as int));
                assert(b@ =~= s@.skip(i + 1));
            }
            return Some((String::from_str(a), String::from_str(b)));
        }
        i += 1;
    }
    proof {
        lemma_dot_pos(s@);
        match dot_pos(s@) {
            Some(p) => {
                assert(s@[p] != '.');
            },
            None => {},
        }
    }
    None
}

/// The position of the first configured server with the display name.
pub open spec fn server_name_pos(ss: Seq<crate::state::ServerConfig>, name: Seq<char>) -> Option<
    int,
>
    decreases ss,
{
    if ss.len() == 0 {
        None
    } else if ss[0].name@ == name {
        Some(0int)
    } else {
        match server_name_pos(ss.drop_first(), name) {
            Some(i) => Some(i + 1),
            None => None,
        }
    }
}

/// `server_name_pos` finds the first match, and misses only when none
/// exists.
pub proof fn lemma_server_name_pos(ss: Seq<crate::state::ServerConfig>, name: Seq<char>)
    ensures
        match server_name_pos(ss, name) {
            Some(i) => 0 <= i < ss.len() && ss[i].name@ == name && forall|j: int|
                0 <= j < i ==> ss[j].name@ != name,
            None => forall|j: int| 0 <= j < ss.len() ==> ss[j].name@ != name,
        },
    decreases ss.len(),
{
    if ss.len() > 0 && ss[0].name@ != name {
        lemma_server_name_pos(ss.drop_first(), name);
        let d = ss.drop_first();
        match server_name_pos(d, name) {
            Some(i) => {
                assert(d[i] == ss[i + 1]);
                assert forall|j: int| 0 <= j < i + 1 implies ss[j].name@ != name by {
                    if j > 0 {
                        assert(d[j - 1] == ss[j]);
                    }
                }
            },
            None => {
                assert forall|j: int| 0 <= j < ss.len() implies ss[j].name@ != name by {
                    if j > 0 {
                        assert(d[j - 1] == ss[j]);
                    }
                }
            },
        }
    }
}

/// Find the first configured server with the display name.
fn find_server_by_name<'a>(
    servers: &'a Vec<crate::state::ServerConfig>,
    name: &str,
) -> (r: Option<&'a crate::state::ServerConfig>)
    ensures
        match r {
            Some(srv) => {
                &&& server_name_pos(servers@, name@) is Some
                &&& *srv == servers@[server_name_pos(servers@, name@)->0]
            },
            None => server_name_pos(servers@, name@) is None,
        },
{
    let n = servers.len();
    let mut i: usize = 0;
    while i < n
        invariant
            n == servers@.len(),
            i <= n,
            forall|j: int| 0 <= j < i ==> servers@[j].name@ != name@,
        decreases n - i,
    {
        if str_eq(servers[i].name.as_str(), name) {
            proof {
                lemma_server_name_pos(servers@, name@);
                match server_name_pos(servers@, name@) {
                    Some(p) => {
                        if p < i {
                            assert(servers@[p].name@ != name@);
                        }
                        if p > i {
                            assert(servers@[i as int].name@ != name@);
                        }
                    },
                    None => {
                        assert(servers@[i as int].name@ != name@);
                    },
                }
            }
            return Some(&servers[i]);
        }
        i += 1;
    }
    proof {
        lemma_server_name_pos(servers@, name@);
        match server_name_pos(servers@, name@) {
            Some(p) => {
                assert(servers@[p].name@ != name@);
            },
            None => {},
        }
    }
    None
}

/// Every summary tool of every connection, in listing order.
pub open spec fn all_tools(conns: Seq<(String, ConnectionState)>) -> Seq<McpTool>
    decreases conns,
{
    if conns.len() == 0 {
        Seq::empty()
    } else {
        all_tools(conns.drop_last()) + conns.last().1.tools@
    }
}

/// One aggregated listing entry carries a tool's namespaced name, its
/// description (or the null document), its input schema, and its title
/// when one exists.
pub open spec fn tool_entry_matches(e: JVal, m: McpTool) -> bool {
    &&& obj_field(e, "name"@) == Some(JVal::Str(m.server_name@ + seq!['.'] + m.name@))
    &&& obj_field(e, "description"@) == Some(
        match m.description {
            Some(d) => JVal::Str(d@),
            None => JVal::Null,
        },
    )
    &&& obj_field(e, "inputSchema"@) == Some(m.input_schema@)
    &&& match m.title {
        Some(t) => obj_field(e, "title"@) == Some(JVal::Str(t@)),
        None => obj_field(e, "title"@) is None,
    }
}

/// The listing entries match the summary tools, in order.
pub open spec fn tool_entries_match(es: Seq<JVal>, ms: Seq<McpTool>) -> bool {
    es.len() == ms.len() && forall|i: int|
        0 <= i < es.len() ==> tool_entry_matches(#[trigger] es[i], ms[i])
}

/// Build one aggregated listing entry.
fn tool_entry(m: &McpTool) -> (e: JsonValue)
    ensures
        tool_entry_matches(e@, *m),
{
    let mut nm = m.server_name.clone();
    proof {
        reveal_strlit(".");
        assert("."@ =~= seq!['.']);
    }
    nm.append(".");
    nm.append(m.name.as_str());
    let desc = match &m.description {
        Some(d) => JsonValue::Str(d.clone()),
        None => JsonValue::Null,
    };
    let mut fields: Vec<(String, JsonValue)> = Vec::new();
    fields.push((String::from_str("name"), JsonValue::Str(nm)));
    fields.push((String::from_str("description"), desc));
    fields.push((String::from_str("inputSchema"), m.input_schema.deep_clone()));
    match &m.title {
        Some(t) => {
            fields.push((String::from_str("title"), JsonValue::Str(t.clone())));
        },
        None => {},
    }
    let ghost title = m.title;
    let e = JsonValue::Obj(fields);
    proof {
        reveal_strlit("name");
        reveal_strlit("description");
        reveal_strlit("inputSchema");
        reveal_strlit("title");
        assert("name"@.len() == 4 && "description"@.len() == 11 && "inputSchema"@.len() == 11
            && "title"@.len() == 5);
        assert("description"@[0] != "inputSchema"@[0]);
        let s = jfields_of(fields@);
        lemma_jfields_of(fields@);
        assert(s[0].0 == "name"@ && s[0].1 == JVal::Str(m.server_name@ + seq!['.'] + m.name@));
        assert(s[1].0 == "description"@);
        assert(s[2].0 == "inputSchema"@ && s[2].1 == m.input_schema@);
        lemma_lookup_at(s, "name"@, 0);
        lemma_lookup_at(s, "description"@, 1);
        lemma_lookup_at(s, "inputSchema"@, 2);
        if title is Some {
            assert(s.len() == 4);
            assert(s[3].0 == "title"@ && s[3].1 == JVal::Str(title->0@));
            lemma_lookup_at(s, "title"@, 3);
        } else {
            assert(s.len() == 3);
            lemma_lookup_absent(s, "title"@);
        }
    }
    e
}

/// Collect the aggregated listing: every connected backend's tools, each
/// namespaced as `serverName.toolName`.
pub fn collect_namespaced_tools(state: &AppState) -> (r: Vec<JsonValue>)
    ensures
        tool_entries_match(jvals_of(r@), all_tools(state.connections@)),
{
    let cn = state.connections.len();
    let mut out: Vec<JsonValue> = Vec::new();
    let mut ci: usize = 0;
    proof {
        assert(all_tools(state.connections@.take(0)) =~= Seq::<McpTool>::empty());
    }
    while ci < cn
        invariant
            cn == state.connections@.len(),
            ci <= cn,
            out@.len() == all_tools(state.connections@.take(ci as int)).len(),
            forall|k: int|
                0 <= k < out@.len() ==> tool_entry_matches(
                    #[trigger] out@[k]@,
                    all_tools(state.connections@.take(ci as int))[k],
                ),
        decreases cn - ci,
    {
        let ghost pre = all_tools(state.connections@.take(ci as int));
        let tools = &state.connections[ci].1.tools;
        let tn = tools.len();
        let mut ti: usize = 0;
        while ti < tn
            invariant
                cn == state.connections@.len(),
                ci < cn,
                tn == tools@.len(),
                tools == &state.connections@[ci as int].1.tools,
                ti <= tn,
                pre == all_tools(state.connections@.take(ci as int)),
                out@.len() == pre.len() + ti,
                forall|k: int|
                    0 <= k < pre.len() ==> tool_entry_matches(#[trigger] out@[k]@, pre[k]),
                forall|k: int|
                    0 <= k < ti ==> tool_entry_matches(
                        #[trigger] out@[pre.len() + k]@,
                        tools@[k],
                    ),
            decreases tn - ti,
        {
            let e = tool_entry(&tools[ti]);
            out.push(e);
            ti += 1;
        }
        proof {
            let tk = state.connections@.take(ci + 1);
            assert(tk.drop_last() =~= state.connections@.take(ci as int));
            assert(tk.last() == state.connections@[ci as int]);
            assert(all_tools(tk) == pre + state.connections@[ci as int].1.tools@);
            assert forall|k: int|
                0 <= k < out@.len() implies tool_entry_matches(
                #[trigger] out@[k]@,
                all_tools(tk)[k],
            ) by {
                if k < pre.len() {
                    assert(all_tools(tk)[k] == pre[k]);
                } else {
                    let j = k - pre.len();
                    assert(all_tools(tk)[k] == tools@[j]);
                    assert(tool_entry_matches(out@[pre.len() + j]@, tools@[j]));
                }
            }
        }
        ci += 1;
    }
    proof {
        assert(state.connections@.take(cn as int) =~= state.connections@);
        lemma_jvals_of(out@);
        assert forall|i: int|
            0 <= i < out@.len() implies tool_entry_matches(
            #[trigger] jvals_of(out@)[i],
            all_tools(state.connections@)[i],
        ) by {
            assert(jvals_of(out@)[i] == out@[i]@);
        }
    }
    out
}

/// The `name` member of tools/call parameters, when it is a string.
pub open spec fn params_tool_name(p: Option<JVal>) -> Option<Seq<char>> {
    match p {
        Some(pv) => match obj_field(pv, "name"@) {
            Some(JVal::Str(s)) => Some(s),
            _ => None,
        },
        None => None,
    }
}

/// The `arguments` member of tools/call parameters; the empty object when
/// absent.
pub open spec fn params_arguments(p: Option<JVal>) -> JVal {
    match p {
        Some(pv) => match obj_field(pv, "arguments"@) {
            Some(a) => a,
            None => JVal::Obj(Seq::empty()),
        },
        None => JVal::Obj(Seq::empty()),
    }
}

/// The `method` member of a message, when it is a string.
pub open spec fn req_method(b: JVal) -> Option<Seq<char>> {
    match crate::rpc::msg_method(b) {
        Some(JVal::Str(m)) => Some(m),
        _ => None,
    }
}

/// The protocol version an initialize request declares; empty when absent.
pub open spec fn init_client_version(b: JVal) -> Seq<char> {
    match crate::rpc::msg_params(b) {
        Some(p) => match obj_field(p, "protocolVersion"@) {
            Some(JVal::Str(v)) => v,
            _ => Seq::empty(),
        },
        None => Seq::empty(),
    }
}

/// What the gateway decided for one inbound message.
pub enum Dispatch {
    /// The message carried no id: acknowledge it and do nothing more.
    Accepted,
    /// A complete JSON-RPC response, ready to send.
    Reply(JsonValue),
    /// Forward a tool call to the resolved backend's client.
    CallBackend {
        /// The backend identifier to route to.
        server_id: String,
        /// The plain tool name, with the namespace removed.
        tool_name: String,
        /// The call arguments.
        arguments: JsonValue,
        /// The request id to answer with.
        request_id: JsonValue,
    },
}

/// The reply to an initialize request: a result carrying the negotiated
/// protocol version and the gateway's own server identity.
pub open spec fn init_reply_ok(rv: JVal, idv: JVal, b: JVal) -> bool {
    &&& is_result_response(rv, idv, response_result(rv)->0)
    &&& obj_field(response_result(rv)->0, "protocolVersion"@) == Some(
        JVal::Str(crate::http::negotiated_version(init_client_version(b))),
    )
    &&& match obj_field(response_result(rv)->0, "serverInfo"@) {
        Some(si) => obj_field(si, "name"@) == Some(JVal::Str("MCP Manager Proxy"@)),
        None => false,
    }
    &&& obj_field(response_result(rv)->0, "capabilities"@) is Some
}

/// The reply to a tools/list request: a result whose `tools` array holds
/// every connected backend's tools, namespaced.
pub open spec fn list_reply_ok(rv: JVal, idv: JVal, connections: Seq<(String, ConnectionState)>) -> bool {
    &&& is_result_response(rv, idv, response_result(rv)->0)
    &&& obj_field(response_result(rv)->0, "tools"@) is Some
    &&& obj_field(response_result(rv)->0, "tools"@)->0 is Arr
    &&& tool_entries_match(
        obj_field(response_result(rv)->0, "tools"@)->0->Arr_0,
        all_tools(connections),
    )
}

/// The rejection of a tools/call that cannot be forwarded: an invalid
/// parameter error whose message names what was missing, with the
/// unconnected backend among the causes.
pub open spec fn call_reject_ok(
    rv: JVal,
    servers: Seq<crate::state::ServerConfig>,
    conns: McpConnections,
    idv: JVal,
    pview: Option<JVal>,
) -> bool {
    match params_tool_name(pview) {
        None => {
            if pview is None {
                is_error_response(rv, idv, CODE_INVALID_PARAMS as int, "Missing params for tools/call"@)
            } else {
                is_error_response(rv, idv, CODE_INVALID_PARAMS as int, "Missing tool name in params"@)
            }
        },
        Some(full) => match dot_pos(full) {
            None => is_error_response(
                rv,
                idv,
                CODE_INVALID_PARAMS as int,
                "Tool name must be namespaced as 'serverName.toolName', got: "@ + full,
            ),
            Some(dp) => {
                let sname = full.take(dp);
                match server_name_pos(servers, sname) {
                    None => is_error_response(
                        rv,
                        idv,
                        CODE_INVALID_PARAMS as int,
                        "No server found with name: "@ + sname,
                    ),
                    Some(si) => {
                        &&& conns.lookup(servers[si].id@) is None
                        &&& is_error_response(
                            rv,
                            idv,
                            CODE_INVALID_PARAMS as int,
                            "Server '"@ + sname + "' is not connected"@,
                        )
                    },
                }
            },
        },
    }
}

/// The forwarding of a tools/call: the compound name resolved to a
/// connected backend, the plain tool name and the arguments carried over.
pub open spec fn call_forward_ok(
    sid: Seq<char>,
    tname: Seq<char>,
    argv: JVal,
    ridv: JVal,
    servers: Seq<crate::state::ServerConfig>,
    conns: McpConnections,
    idv: JVal,
    pview: Option<JVal>,
) -> bool {
    &&& ridv == idv
    &&& argv == params_arguments(pview)
    &&& match params_tool_name(pview) {
        Some(full) => match dot_pos(full) {
            Some(dp) => {
                &&& tname == full.skip(dp + 1)
                &&& match server_name_pos(servers, full.take(dp)) {
                    Some(si) => sid == servers[si].id@ && conns.lookup(sid) is Some,
                    None => false,
                }
            },
            None => false,
        },
        None => false,
    }
}

/// What a tools/call must decide: forward to a connected backend, or
/// reject with an invalid-parameter error.
pub open spec fn tools_call_outcome_ok(
    d: Dispatch,
    servers: Seq<crate::state::ServerConfig>,
    conns: McpConnections,
    idv: JVal,
    pview: Option<JVal>,
) -> bool {
    match d {
        Dispatch::CallBackend { server_id, tool_name, arguments, request_id } => call_forward_ok(
            server_id@,
            tool_name@,
            arguments@,
            request_id@,
            servers,
            conns,
            idv,
            pview,
        ),
        Dispatch::Reply(v) => call_reject_ok(v@, servers, conns, idv, pview),
        Dispatch::Accepted => false,
    }
}

/// What the gateway must decide for one inbound message: acknowledge
/// notification traffic, answer initialize and tools/list itself, route
/// tools/call, and refuse any other method.
pub open spec fn dispatch_ok(
    d: Dispatch,
    b: JVal,
    servers: Seq<crate::state::ServerConfig>,
    connections: Seq<(String, ConnectionState)>,
    conns: McpConnections,
) -> bool {
    if crate::rpc::is_notification(b) {
        d is Accepted
    } else {
        let idv = msg_id(b)->0;
        match req_method(b) {
            Some(m) => {
                if m == "initialize"@ {
                    d matches Dispatch::Reply(v) && init_reply_ok(v@, idv, b)
                } else if m == "tools/list"@ {
                    d matches Dispatch::Reply(v) && list_reply_ok(v@, idv, connections)
                } else if m == "tools/call"@ {
                    tools_call_outcome_ok(d, servers, conns, idv, crate::rpc::msg_params(b))
                } else {
                    d matches Dispatch::Reply(v) && is_error_response(
                        v@,
                        idv,
                        crate::rpc::CODE_METHOD_NOT_FOUND as int,
                        "Method not found: "@ + m,
                    )
                }
            },
            None => d matches Dispatch::Reply(v) && is_error_response(
                v@,
                idv,
                crate::rpc::CODE_METHOD_NOT_FOUND as int,
                "Method not found: "@,
            ),
        }
    }
}

/// Answer an initialize request locally: negotiate the protocol version
/// and declare the gateway's own capabilities and identity. The backend
/// need not be connected yet.
fn handle_initialize(id: JsonValue, client_version: &str) -> (r: JsonValue)
    ensures
        is_result_response(r@, id@, response_result(r@)->0),
        obj_field(response_result(r@)->0, "protocolVersion"@) == Some(
            JVal::Str(crate::http::negotiated_version(client_version@)),
        ),
        match obj_field(response_result(r@)->0, "serverInfo"@) {
            Some(si) => obj_field(si, "name"@) == Some(JVal::Str("MCP Manager Proxy"@)),
            None => false,
        },
        obj_field(response_result(r@)->0, "capabilities"@) is Some,
{
    let version = crate::http::negotiate_version(client_version);
    let mut lc_fields: Vec<(String, JsonValue)> = Vec::new();
    lc_fields.push((String::from_str("listChanged"), JsonValue::Bool(false)));
    let mut caps_fields: Vec<(String, JsonValue)> = Vec::new();
    caps_fields.push((String::from_str("tools"), JsonValue::Obj(lc_fields)));
    let mut si_fields: Vec<(String, JsonValue)> = Vec::new();
    si_fields.push((String::from_str("name"), JsonValue::Str(String::from_str(
        "MCP Manager Proxy",
    ))));
    si_fields.push((String::from_str("version"), JsonValue::Str(String::from_str("0.1.0"))));
    let si = JsonValue::Obj(si_fields);
    proof {
        reveal_strlit("name");
        reveal_strlit("version");
        assert("name"@.len() == 4 && "version"@.len() == 7);
        let s = jfields_of(si_fields@);
        lemma_jfields_of(si_fields@);
        assert(s[0].0 == "name"@ && s[0].1 == JVal::Str("MCP Manager Proxy"@));
        lemma_lookup_at(s, "name"@, 0);
    }
    let mut fields: Vec<(String, JsonValue)> = Vec::new();
    fields.push((String::from_str("protocolVersion"), JsonValue::Str(String::from_str(version))));
    fields.push((String::from_str("capabilities"), JsonValue::Obj(caps_fields)));
    fields.push((String::from_str("serverInfo"), si));
    let result = JsonValue::Obj(fields);
    let ghost siv = fields@[2].1@;
    proof {
        reveal_strlit("protocolVersion");
        reveal_strlit("capabilities");
        reveal_strlit("serverInfo");
        assert("protocolVersion"@.len() == 15 && "capabilities"@.len() == 12 && "serverInfo"@.len()
            == 10);
        let s = jfields_of(fields@);
        lemma_jfields_of(fields@);
        assert(s[0].0 == "protocolVersion"@ && s[0].1 == JVal::Str(
            crate::http::negotiated_version(client_version@),
        ));
        assert(s[1].0 == "capabilities"@);
        assert(s[2].0 == "serverInfo"@ && s[2].1 == siv);
        lemma_lookup_at(s, "protocolVersion"@, 0);
        lemma_lookup_at(s, "capabilities"@, 1);
        lemma_lookup_at(s, "serverInfo"@, 2);
    }
    make_result_response(id, result)
}

/// Answer a tools/list request: the aggregated, namespaced listing of
/// every connected backend's tools. A disconnected backend simply
/// advertises nothing.
fn handle_tools_list(id: JsonValue, state: &AppState) -> (r: JsonValue)
    ensures
        list_reply_ok(r@, id@, state.connections@),
{
    let entries = collect_namespaced_tools(state);
    let mut fields: Vec<(String, JsonValue)> = Vec::new();
    fields.push((String::from_str("tools"), JsonValue::Arr(entries)));
    let result = JsonValue::Obj(fields);
    proof {
        reveal_strlit("tools");
        let s = jfields_of(fields@);
        lemma_jfields_of(fields@);
        lemma_lookup_at(s, "tools"@, 0);
    }
    make_result_response(id, result)
}

/// Route a tools/call request: parse the compound tool name, resolve the
/// backend by display name, and require a live connection. Everything
/// that prevents forwarding is an invalid-parameter error response, never
/// an HTTP failure.
fn route_tools_call(
    state: &AppState,
    conns: &McpConnections,
    id: JsonValue,
    params: Option<&JsonValue>,
) -> (r: Dispatch)
    requires
        conns.wf(),
    ensures
        tools_call_outcome_ok(
            r,
            state.servers@,
            *conns,
            id@,
            match params {
                Some(p) => Some(p@),
                None => None,
            },
        ),
{
    let ghost pview: Option<JVal> = match params {
        Some(p) => Some(p@),
        None => None,
    };
    let p = match params {
        Some(p) => p,
        None => {
            return Dispatch::Reply(make_error_response(
                id,
                CODE_INVALID_PARAMS,
                "Missing params for tools/call",
            ));
        },
    };
    let full_name = match p.get_field("name") {
        Some(n) => match n.as_str() {
            Some(s) => s,
            None => {
                return Dispatch::Reply(make_error_response(
                    id,
                    CODE_INVALID_PARAMS,
                    "Missing tool name in params",
                ));
            },
        },
        None => {
            return Dispatch::Reply(make_error_response(
                id,
                CODE_INVALID_PARAMS,
                "Missing tool name in params",
            ));
        },
    };
    let arguments = match p.get_field("arguments") {
        Some(a) => a.deep_clone(),
        None => JsonValue::Obj(Vec::new()),
    };
    let (server_name, tool_name) = match split_at_dot(full_name.as_str()) {
        Some(parts) => parts,
        None => {
            let mut m = String::from_str(
                "Tool name must be namespaced as 'serverName.toolName', got: ",
            );
            m.append(full_name.as_str());
            return Dispatch::Reply(make_error_response(id, CODE_INVALID_PARAMS, m.as_str()));
        },
    };
    let server_id: String = match find_server_by_name(&state.servers, server_name.as_str()) {
        Some(srv) => srv.id.clone(),
        None => {
            let mut m = String::from_str("No server found with name: ");
            m.append(server_name.as_str());
            return Dispatch::Reply(make_error_response(id, CODE_INVALID_PARAMS, m.as_str()));
        },
    };
    match conns.get(server_id.as_str()) {
        Some(_) => Dispatch::CallBackend { server_id, tool_name, arguments, request_id: id },
        None => {
            let mut m = String::from_str("Server '");
            m.append(server_name.as_str());
            m.append("' is not connected");
            Dispatch::Reply(make_error_response(id, CODE_INVALID_PARAMS, m.as_str()))
        },
    }
}

/// Wrap a forwarded call's outcome as a JSON-RPC response: the rebuilt
/// result document on success, an internal error naming the failure
/// otherwise.
pub fn wrap_call_outcome(request_id: JsonValue, outcome: Result<CallToolResult, AppError>) -> (r:
    JsonValue)
    ensures
        match outcome {
            Ok(ctr) => {
                &&& is_result_response(r@, request_id@, response_result(r@)->0)
                &&& obj_field(response_result(r@)->0, "content"@) == Some(
                    JVal::Arr(jvals_of(ctr.content@)),
                )
                &&& match ctr.is_error {
                    Some(b) => obj_field(response_result(r@)->0, "isError"@) == Some(
                        JVal::Bool(b),
                    ),
                    None => obj_field(response_result(r@)->0, "isError"@) is None,
                }
            },
            Err(e) => is_error_response(
                r@,
                request_id@,
                CODE_INTERNAL_ERROR as int,
                "Tool call failed: "@ + e.text(),
            ),
        },
{
    match outcome {
        Ok(ctr) => {
            let result = call_tool_result_value(&ctr);
            make_result_response(request_id, result)
        },
        Err(e) => {
            let mut m = String::from_str("Tool call failed: ");
            let em = e.message();
            m.append(em.as_str());
            make_error_response(request_id, CODE_INTERNAL_ERROR, m.as_str())
        },
    }
}

/// Decide one inbound message: a message with no id is acknowledged and
/// discarded; initialize and tools/list are answered locally; tools/call
/// is routed to its backend; any other method is refused.
pub fn dispatch_message(state: &AppState, conns: &McpConnections, body: &JsonValue) -> (r: Dispatch)
    requires
        conns.wf(),
    ensures
        dispatch_ok(r, body@, state.servers@, state.connections@, *conns),
{
    let id = match body.get_field("id") {
        Some(idv) => idv.deep_clone(),
        None => {
            return Dispatch::Accepted;
        },
    };
    let method = match body.get_field("method") {
        Some(m) => match m.as_str() {
            Some(s) => s.as_str(),
            None => {
                let m = String::from_str("Method not found: ");
                return Dispatch::Reply(make_error_response(
                    id,
                    crate::rpc::CODE_METHOD_NOT_FOUND,
                    m.as_str(),
                ));
            },
        },
        None => {
            let m = String::from_str("Method not found: ");
            return Dispatch::Reply(make_error_response(
                id,
                crate::rpc::CODE_METHOD_NOT_FOUND,
                m.as_str(),
            ));
        },
    };
    let params = body.get_field("params");
    if str_eq(method, "initialize") {
        let client_version: &str = match params {
            Some(p) => match p.get_field("protocolVersion") {
                Some(v) => match v.as_str() {
                    Some(s) => s.as_str(),
                    None => "",
                },
                None => "",
            },
            None => "",
        };
        proof {
            reveal_strlit("");
            assert(""@ =~= Seq::<char>::empty());
        }
        Dispatch::Reply(handle_initialize(id, client_version))
    } else if str_eq(method, "tools/list") {
        Dispatch::Reply(handle_tools_list(id, state))
    } else if str_eq(method, "tools/call") {
        route_tools_call(state, conns, id, params)
    } else {
        let mut m = String::from_str("Method not found: ");
        m.append(method);
        Dispatch::Reply(make_error_response(id, crate::rpc::CODE_METHOD_NOT_FOUND, m.as_str()))
    }
}

/// What the HTTP layer must do for one POST: send a finished response, or
/// perform a backend call and then send its wrapped outcome.
pub enum GatewayStep {
    /// A finished response, ready to send.
    Respond(crate::http::HttpResponse),
    /// Forward a tool call; wrap its outcome and send that.
    CallBackend {
        /// The backend identifier to route to.
        server_id: String,
        /// The plain tool name, with the namespace removed.
        tool_name: String,
        /// The call arguments.
        arguments: JsonValue,
        /// The request id to answer with.
        request_id: JsonValue,
        /// Whether to frame the outcome as a server-sent event.
        use_sse: bool,
    },
}

/// Whether the caller's origin header value is allowed through.
pub open spec fn origin_ok(origin: Option<&str>) -> bool {
    match origin {
        Some(o) => crate::http::origin_allowed(o@),
        None => true,
    }
}

/// Whether the caller's accept header asks for server-sent events.
pub open spec fn wants_sse(accept: Option<&str>) -> bool {
    match accept {
        Some(a) => crate::text::contains_seq(a@, "text/event-stream"@),
        None => false,
    }
}

/// A response framed as the caller's accept header asked.
pub open spec fn wrapped_response(
    resp: crate::http::HttpResponse,
    v: JVal,
    sse: bool,
) -> bool {
    if sse {
        crate::http::is_sse_response(resp, v, None)
    } else {
        crate::http::is_json_response(resp, v, None)
    }
}

/// Handle one POST to the gateway endpoint: validate the origin, then
/// decide the message. A foreign origin is refused with status 403; a
/// message with no id always yields the empty accepted response, whatever
/// its method; every other decision becomes a JSON-RPC response with
/// status 200, or a backend call whose wrapped outcome will be.
pub fn handle_post(
    state: &AppState,
    conns: &McpConnections,
    origin: Option<&str>,
    accept: Option<&str>,
    body: &JsonValue,
) -> (r: GatewayStep)
    requires
        conns.wf(),
    ensures
        !origin_ok(origin) ==> (r matches GatewayStep::Respond(resp) && resp.status == 403),
        origin_ok(origin) && crate::rpc::is_notification(body@) ==> (r matches GatewayStep::Respond(
            resp,
        ) && crate::http::is_accepted_response(resp, None)),
        origin_ok(origin) && !crate::rpc::is_notification(body@) ==> match r {
            GatewayStep::Respond(resp) => {
                &&& resp.status == 200
                &&& exists|v: JsonValue|
                    {
                        &&& #[trigger] wrapped_response(resp, v@, wants_sse(accept))
                        &&& dispatch_ok(
                            Dispatch::Reply(v),
                            body@,
                            state.servers@,
                            state.connections@,
                            *conns,
                        )
                    }
            },
            GatewayStep::CallBackend { server_id, tool_name, arguments, request_id, use_sse } => {
                &&& use_sse == wants_sse(accept)
                &&& req_method(body@) == Some("tools/call"@)
                &&& call_forward_ok(
                    server_id@,
                    tool_name@,
                    arguments@,
                    request_id@,
                    state.servers@,
                    *conns,
                    msg_id(body@)->0,
                    crate::rpc::msg_params(body@),
                )
            },
        },
{
    match crate::http::validate_origin(origin) {
        Ok(_) => {},
        Err((_code, msg)) => {
            return GatewayStep::Respond(crate::http::forbidden_response(msg));
        },
    }
    let sse = crate::http::client_accepts_sse(accept);
    match dispatch_message(state, conns, body) {
        Dispatch::Accepted => GatewayStep::Respond(crate::http::accepted_response(None)),
        Dispatch::Reply(v) => {
            let ghost gv = v;
            let resp = crate::http::mcp_response(&v, None, sse);
            proof {
                assert(wrapped_response(resp, gv@, wants_sse(accept)));
                assert(dispatch_ok(
                    Dispatch::Reply(gv),
                    body@,
                    state.servers@,
                    state.connections@,
                    *conns,
                ));
            }
            GatewayStep::Respond(resp)
        },
        Dispatch::CallBackend { server_id, tool_name, arguments, request_id } => {
            GatewayStep::CallBackend { server_id, tool_name, arguments, request_id, use_sse: sse }
        },
    }
}

/// The proxy's runtime state: set once when the gateway binds its port,
/// read by many afterwards.
pub struct ProxyState {
    /// Whether the gateway is serving.
    pub running: bool,
    /// The bound local port.
    pub port: u16,
}

impl ProxyState {
    /// The state before the gateway has started.
    pub fn new() -> (r: ProxyState)
        ensures
            !r.running,
            r.port == 0,
    {
        ProxyState { running: false, port: 0 }
    }

    /// Record the bound port, once, at startup.
    pub fn set_running(&mut self, port: u16)
        ensures
            final(self).running,
            final(self).port == port,
    {
        self.running = true;
        self.port = port;
    }

    /// Whether the gateway is serving.
    pub fn is_running(&self) -> (r: bool)
        ensures
            r == self.running,
    {
        self.running
    }

    /// The bound local port.
    pub fn port(&self) -> (r: u16)
        ensures
            r == self.port,
    {
        self.port
    }
}

} // verus!
