//! One MCP protocol session layered on a stdio transport.
//!
//! The session performs the initialize handshake, discovers tools, and
//! issues tool calls. The handshake order is mandatory: `initialize`, then
//! the initialized notification, then the first `tools/list`; only then is
//! the client ready and a tool call accepted. The input/output that drives
//! the session lives outside the crate; the session state machine, the
//! request framing and the response parsing are modeled here.

use vstd::prelude::*;
use vstd::string::StringExecFns;

use crate::assoc::assoc_lookup;
use crate::assoc::lemma_assoc_lookup_absent;
use crate::assoc::lemma_assoc_lookup_at;
use crate::assoc::lemma_assoc_lookup_push_other;
use crate::assoc::lemma_assoc_lookup_remove_other;
use crate::assoc::lemma_assoc_lookup_update_other;
use crate::error::AppError;
use crate::json::JVal;
use crate::json::JsonValue;
use crate::json::has_field;
use crate::json::jfields_of;
use crate::json::jvals_of;
use crate::json::json_text;
use crate::json::lemma_jfields_of;
use crate::json::lemma_jvals_of;
use crate::json::lemma_lookup_absent;
use crate::json::lemma_lookup_at;
use crate::json::obj_field;
use crate::rpc::is_request_wire;
use crate::rpc::response_result;
use crate::transport::LineAction;
use crate::transport::StdioTransport;

verus! {

/// The server identity captured from the initialize handshake.
#[derive(Debug, PartialEq, Eq)]
pub struct ServerInfo {
    /// The server's declared name.
    pub name: String,
    /// The server's declared version.
    pub version: String,
}

/// One tool descriptor discovered from a backend.
#[derive(Debug, PartialEq, Eq)]
pub struct McpToolDef {
    /// The tool name, as the backend declares it.
    pub name: String,
    /// The optional human-readable title.
    pub title: Option<String>,
    /// The optional description.
    pub description: Option<String>,
    /// The input schema, an opaque structured document.
    pub input_schema: JsonValue,
}

/// Result from calling a tool: content items and an optional error flag.
#[derive(Debug, PartialEq, Eq)]
pub struct CallToolResult {
    /// The content items, opaque structured documents.
    pub content: Vec<JsonValue>,
    /// The backend's error flag, when it sent one.
    pub is_error: Option<bool>,
}

/// The initialize response carries a result with `capabilities` and a
/// `serverInfo` object holding string `name` and `version` members.
pub open spec fn init_result_shape(v: JVal) -> bool {
    &&& response_result(v) is Some
    &&& has_field(response_result(v)->0, "capabilities"@)
    &&& obj_field(response_result(v)->0, "serverInfo"@) is Some
    &&& obj_field(obj_field(response_result(v)->0, "serverInfo"@)->0, "name"@) is Some
    &&& obj_field(obj_field(response_result(v)->0, "serverInfo"@)->0, "name"@)->0 is Str
    &&& obj_field(obj_field(response_result(v)->0, "serverInfo"@)->0, "version"@) is Some
    &&& obj_field(obj_field(response_result(v)->0, "serverInfo"@)->0, "version"@)->0 is Str
}

/// Parse the response to `initialize`: the declared capabilities and the
/// server identity. Fails with a protocol failure exactly when the
/// response does not have the expected shape.
pub fn parse_initialize_result(v: &JsonValue) -> (r: Result<(JsonValue, ServerInfo), AppError>)
    ensures
        r is Ok <==> init_result_shape(v@),
        match r {
            Ok((caps, info)) => {
                &&& Some(caps@) == obj_field(response_result(v@)->0, "capabilities"@)
                &&& Some(JVal::Str(info.name@)) == obj_field(
                    obj_field(response_result(v@)->0, "serverInfo"@)->0,
                    "name"@,
                )
                &&& Some(JVal::Str(info.version@)) == obj_field(
                    obj_field(response_result(v@)->0, "serverInfo"@)->0,
                    "version"@,
                )
            },
            Err(e) => e is Protocol,
        },
{
    let res = match v.get_field("result") {
        Some(res) => res,
        None => {
            return Err(AppError::Protocol(String::from_str("No result in initialize response")));
        },
    };
    let caps = match res.get_field("capabilities") {
        Some(c) => c.deep_clone(),
        None => {
            return Err(AppError::Protocol(String::from_str("No capabilities in initialize result")));
        },
    };
    let si = match res.get_field("serverInfo") {
        Some(s) => s,
        None => {
            return Err(AppError::Protocol(String::from_str("No serverInfo in initialize result")));
        },
    };
    let name = match si.get_field("name") {
        Some(n) => match n.as_str() {
            Some(s) => s.clone(),
            None => {
                return Err(AppError::Protocol(String::from_str("Server name is not a string")));
            },
        },
        None => {
            return Err(AppError::Protocol(String::from_str("No server name in serverInfo")));
        },
    };
    let version = match si.get_field("version") {
        Some(n) => match n.as_str() {
            Some(s) => s.clone(),
            None => {
                return Err(AppError::Protocol(String::from_str("Server version is not a string")));
            },
        },
        None => {
            return Err(AppError::Protocol(String::from_str("No server version in serverInfo")));
        },
    };
    Ok((caps, ServerInfo { name, version }))
}

/// One listed tool has a string `name`; `title` and `description` are
/// strings when present; the input schema may be anything or absent.
pub open spec fn tool_def_shape(j: JVal) -> bool {
    &&& obj_field(j, "name"@) is Some
    &&& obj_field(j, "name"@)->0 is Str
    &&& (obj_field(j, "title"@) is Some ==> obj_field(j, "title"@)->0 is Str)
    &&& (obj_field(j, "description"@) is Some ==> obj_field(j, "description"@)->0 is Str)
}

/// The parsed descriptor carries exactly the listed tool's members.
pub open spec fn tool_def_matches(t: McpToolDef, j: JVal) -> bool {
    &&& obj_field(j, "name"@) == Some(JVal::Str(t.name@))
    &&& match t.title {
        Some(s) => obj_field(j, "title"@) == Some(JVal::Str(s@)),
        None => obj_field(j, "title"@) is None,
    }
    &&& match t.description {
        Some(s) => obj_field(j, "description"@) == Some(JVal::Str(s@)),
        None => obj_field(j, "description"@) is None,
    }
    &&& t.input_schema@ == match obj_field(j, "inputSchema"@) {
        Some(s) => s,
        None => JVal::Null,
    }
}

/// Parse one tool descriptor.
fn parse_tool_def(j: &JsonValue) -> (r: Result<McpToolDef, AppError>)
    ensures
        r is Ok <==> tool_def_shape(j@),
        match r {
            Ok(t) => tool_def_matches(t, j@),
            Err(e) => e is Protocol,
        },
{
    let name = match j.get_field("name") {
        Some(n) => match n.as_str() {
            Some(s) => s.clone(),
            None => {
                return Err(AppError::Protocol(String::from_str("Tool name is not a string")));
            },
        },
        None => {
            return Err(AppError::Protocol(String::from_str("Tool has no name")));
        },
    };
    let title = match j.get_field("title") {
        Some(t) => match t.as_str() {
            Some(s) => Some(s.clone()),
            None => {
                return Err(AppError::Protocol(String::from_str("Tool title is not a string")));
            },
        },
        None => None,
    };
    let description = match j.get_field("description") {
        Some(d) => match d.as_str() {
            Some(s) => Some(s.clone()),
            None => {
                return Err(AppError::Protocol(String::from_str(
                    "Tool description is not a string",
                )));
            },
        },
        None => None,
    };
    let input_schema = match j.get_field("inputSchema") {
        Some(s) => s.deep_clone(),
        None => JsonValue::Null,
    };
    Ok(McpToolDef { name, title, description, input_schema })
}

/// The tools/list response carries a result with a `tools` array whose
/// elements are all well-shaped tool descriptors.
pub open spec fn tools_list_shape(v: JVal) -> bool {
    &&& response_result(v) is Some
    &&& obj_field(response_result(v)->0, "tools"@) is Some
    &&& obj_field(response_result(v)->0, "tools"@)->0 is Arr
    &&& forall|i: int|
        0 <= i < listed_tools(v).len() ==> tool_def_shape(#[trigger] listed_tools(v)[i])
}

/// The elements of the `tools` array of a tools/list response.
pub open spec fn listed_tools(v: JVal) -> Seq<JVal> {
    obj_field(response_result(v)->0, "tools"@)->0->Arr_0
}

/// The parsed descriptors match the listed tools, in order.
pub open spec fn tools_match(ts: Seq<McpToolDef>, items: Seq<JVal>) -> bool {
    ts.len() == items.len() && forall|i: int|
        0 <= i < ts.len() ==> tool_def_matches(#[trigger] ts[i], items[i])
}

/// Parse the response to `tools/list`. Fails with a protocol failure
/// exactly when the response does not have the expected shape.
pub fn parse_tools_list(v: &JsonValue) -> (r: Result<Vec<McpToolDef>, AppError>)
    ensures
        r is Ok <==> tools_list_shape(v@),
        match r {
            Ok(ts) => tools_match(ts@, listed_tools(v@)),
            Err(e) => e is Protocol,
        },
{
    let res = match v.get_field("result") {
        Some(res) => res,
        None => {
            return Err(AppError::Protocol(String::from_str("No result in tools/list response")));
        },
    };
    let arr = match res.get_field("tools") {
        Some(t) => match t.as_arr() {
            Some(a) => a,
            None => {
                return Err(AppError::Protocol(String::from_str("tools is not an array")));
            },
        },
        None => {
            return Err(AppError::Protocol(String::from_str("No tools in tools/list result")));
        },
    };
    proof {
        lemma_jvals_of(arr@);
    }
    let n = arr.len();
    let mut out: Vec<McpToolDef> = Vec::new();
    let mut i: usize = 0;
    while i < n
        invariant
            n == arr@.len(),
            i <= n,
            out@.len() == i,
            jvals_of(arr@).len() == n,
            forall|j: int| 0 <= j < n ==> jvals_of(arr@)[j] == arr@[j]@,
            listed_tools(v@) == jvals_of(arr@),
            forall|j: int| 0 <= j < i ==> tool_def_matches(#[trigger] out@[j], arr@[j]@),
            forall|j: int| 0 <= j < i ==> tool_def_shape(arr@[j]@),
        decreases n - i,
    {
        let t = match parse_tool_def(&arr[i]) {
            Ok(t) => t,
            Err(e) => {
                proof {
                    assert(listed_tools(v@)[i as int] == arr@[i as int]@);
                    assert(!tool_def_shape(listed_tools(v@)[i as int]));
                }
                return Err(e);
            },
        };
        out.push(t);
        i += 1;
    }
    proof {
        assert(response_result(v@) is Some);
        assert(obj_field(response_result(v@)->0, "tools"@) is Some);
        assert(obj_field(response_result(v@)->0, "tools"@)->0 is Arr);
        assert forall|j: int| 0 <= j < n implies tool_def_shape(#[trigger] listed_tools(v@)[j]) by {
            assert(listed_tools(v@)[j] == arr@[j]@);
        }
        assert forall|j: int|
            0 <= j < n implies tool_def_matches(#[trigger] out@[j], listed_tools(v@)[j]) by {
            assert(listed_tools(v@)[j] == arr@[j]@);
        }
    }
    Ok(out)
}

/// The tools/call response carries a result with a `content` array; the
/// `isError` member is a boolean when present.
pub open spec fn call_result_shape(v: JVal) -> bool {
    &&& response_result(v) is Some
    &&& obj_field(response_result(v)->0, "content"@) is Some
    &&& obj_field(response_result(v)->0, "content"@)->0 is Arr
    &&& (obj_field(response_result(v)->0, "isError"@) is Some ==> obj_field(
        response_result(v)->0,
        "isError"@,
    )->0 is Bool)
}

/// The content items of a tools/call response.
pub open spec fn call_result_content(v: JVal) -> Seq<JVal> {
    obj_field(response_result(v)->0, "content"@)->0->Arr_0
}

/// The parsed result carries exactly the response's content and flag.
pub open spec fn call_result_matches(r: CallToolResult, v: JVal) -> bool {
    &&& jvals_of(r.content@) == call_result_content(v)
    &&& match r.is_error {
        Some(b) => obj_field(response_result(v)->0, "isError"@) == Some(JVal::Bool(b)),
        None => obj_field(response_result(v)->0, "isError"@) is None,
    }
}

/// Parse the response to `tools/call`. Fails with a protocol failure
/// exactly when the response does not have the expected shape.
pub fn parse_call_tool_result(v: &JsonValue) -> (r: Result<CallToolResult, AppError>)
    ensures
        r is Ok <==> call_result_shape(v@),
        match r {
            Ok(ctr) => call_result_matches(ctr, v@),
            Err(e) => e is Protocol,
        },
{
    let res = match v.get_field("result") {
        Some(res) => res,
        None => {
            return Err(AppError::Protocol(String::from_str("No result in tools/call response")));
        },
    };
    let arr = match res.get_field("content") {
        Some(c) => match c.as_arr() {
            Some(a) => a,
            None => {
                return Err(AppError::Protocol(String::from_str("content is not an array")));
            },
        },
        None => {
            return Err(AppError::Protocol(String::from_str("No content in tools/call result")));
        },
    };
    let is_error = match res.get_field("isError") {
        Some(f) => match f.as_bool() {
            Some(b) => Some(b),
            None => {
                return Err(AppError::Protocol(String::from_str("isError is not a boolean")));
            },
        },
        None => None,
    };
    proof {
        lemma_jvals_of(arr@);
    }
    let n = arr.len();
    let mut content: Vec<JsonValue> = Vec::new();
    let mut i: usize = 0;
    while i < n
        invariant
            n == arr@.len(),
            i <= n,
            content@.len() == i,
            forall|j: int| 0 <= j < i ==> #[trigger] content@[j]@ == arr@[j]@,
        decreases n - i,
    {
        let c = arr[i].deep_clone();
        content.push(c);
        i += 1;
    }
    proof {
        lemma_jvals_of(content@);
        lemma_jvals_of(arr@);
        assert forall|j: int|
            0 <= j < n implies #[trigger] jvals_of(content@)[j] == jvals_of(arr@)[j] by {
            assert(content@[j]@ == arr@[j]@);
        }
        assert(jvals_of(content@) =~= jvals_of(arr@));
    }
    Ok(CallToolResult { content, is_error })
}

/// Rebuild the wire document of a tools/call result, for re-emission by
/// the gateway: a `content` array, and the `isError` flag when present.
pub fn call_tool_result_value(r: &CallToolResult) -> (out: JsonValue)
    ensures
        obj_field(out@, "content"@) == Some(JVal::Arr(jvals_of(r.content@))),
        match r.is_error {
            Some(b) => obj_field(out@, "isError"@) == Some(JVal::Bool(b)),
            None => obj_field(out@, "isError"@) is None,
        },
{
    let n = r.content.len();
    let mut items: Vec<JsonValue> = Vec::new();
    let mut i: usize = 0;
    while i < n
        invariant
            n == r.content@.len(),
            i <= n,
            items@.len() == i,
            forall|j: int| 0 <= j < i ==> #[trigger] items@[j]@ == r.content@[j]@,
        decreases n - i,
    {
        let c = r.content[i].deep_clone();
        items.push(c);
        i += 1;
    }
    proof {
        lemma_jvals_of(items@);
        lemma_jvals_of(r.content@);
        assert forall|j: int|
            0 <= j < n implies #[trigger] jvals_of(items@)[j] == jvals_of(r.content@)[j] by {
            assert(items@[j]@ == r.content@[j]@);
        }
        assert(jvals_of(items@) =~= jvals_of(r.content@));
    }
    let mut fields: Vec<(String, JsonValue)> = Vec::new();
    fields.push((String::from_str("content"), JsonValue::Arr(items)));
    match r.is_error {
        Some(b) => {
            fields.push((String::from_str("isError"), JsonValue::Bool(b)));
        },
        None => {},
    }
    let ghost flag = r.is_error;
    let out = JsonValue::Obj(fields);
    proof {
        reveal_strlit("content");
        reveal_strlit("isError");
        assert("content"@.len() == 7 && "isError"@.len() == 7);
        assert("content"@[0] != "isError"@[0]);
        let s = jfields_of(fields@);
        lemma_jfields_of(fields@);
        assert(s[0].0 == "content"@ && s[0].1 == JVal::Arr(jvals_of(r.content@)));
        assert(s[0].0 != "isError"@);
        lemma_lookup_at(s, "content"@, 0);
        if flag is Some {
            assert(s.len() == 2);
            assert(s[1].0 == "isError"@ && s[1].1 == JVal::Bool(flag->0));
            lemma_lookup_at(s, "isError"@, 1);
        } else {
            assert(s.len() == 1);
            lemma_lookup_absent(s, "isError"@);
        }
    }
    out
}

/// Build the parameters of the `initialize` request: the protocol version
/// this client speaks, its empty capability set, and its identity.
fn initialize_params() -> (p: JsonValue)
    ensures
        obj_field(p@, "protocolVersion"@) == Some(JVal::Str("2025-03-26"@)),
        has_field(p@, "capabilities"@),
        has_field(p@, "clientInfo"@),
{
    let mut info_fields: Vec<(String, JsonValue)> = Vec::new();
    info_fields.push((String::from_str("name"), JsonValue::Str(String::from_str("MCP Manager"))));
    info_fields.push((String::from_str("version"), JsonValue::Str(String::from_str("0.1.0"))));
    let mut fields: Vec<(String, JsonValue)> = Vec::new();
    fields.push((
        String::from_str("protocolVersion"),
        JsonValue::Str(String::from_str("2025-03-26")),
    ));
    fields.push((String::from_str("capabilities"), JsonValue::Obj(Vec::new())));
    fields.push((String::from_str("clientInfo"), JsonValue::Obj(info_fields)));
    let p = JsonValue::Obj(fields);
    proof {
        reveal_strlit("protocolVersion");
        reveal_strlit("capabilities");
        reveal_strlit("clientInfo");
        assert("protocolVersion"@.len() == 15 && "capabilities"@.len() == 12 && "clientInfo"@.len()
            == 10);
        let s = jfields_of(fields@);
        lemma_jfields_of(fields@);
        assert(s[0].0 == "protocolVersion"@ && s[0].1 == JVal::Str("2025-03-26"@));
        assert(s[1].0 == "capabilities"@);
        assert(s[2].0 == "clientInfo"@);
        lemma_lookup_at(s, "protocolVersion"@, 0);
        lemma_lookup_at(s, "capabilities"@, 1);
        lemma_lookup_at(s, "clientInfo"@, 2);
    }
    p
}

/// Build the parameters of a `tools/call` request.
fn call_tool_params(name: &str, arguments: JsonValue) -> (p: JsonValue)
    ensures
        obj_field(p@, "name"@) == Some(JVal::Str(name@)),
        obj_field(p@, "arguments"@) == Some(arguments@),
{
    let ghost argv = arguments@;
    let mut fields: Vec<(String, JsonValue)> = Vec::new();
    fields.push((String::from_str("name"), JsonValue::Str(String::from_str(name))));
    fields.push((String::from_str("arguments"), arguments));
    let p = JsonValue::Obj(fields);
    proof {
        reveal_strlit("name");
        reveal_strlit("arguments");
        assert("name"@.len() == 4 && "arguments"@.len() == 9);
        let s = jfields_of(fields@);
        lemma_jfields_of(fields@);
        assert(s[0].0 == "name"@ && s[0].1 == JVal::Str(name@));
        assert(s[1].0 == "arguments"@ && s[1].1 == argv);
        lemma_lookup_at(s, "name"@, 0);
        lemma_lookup_at(s, "arguments"@, 1);
    }
    p
}

/// The phase of one session, in handshake order.
pub enum ClientPhase {
    /// The initialize request is out; its response is awaited.
    Initializing,
    /// The handshake tools/list request is out; its response is awaited.
    ToolListing,
    /// The handshake completed; tool calls are accepted.
    Ready,
    /// The session was shut down; every further use fails.
    Closed,
}

/// What the client hands back when the initialize response is accepted:
/// the initialized notification to write, and the framed handshake
/// tools/list request.
#[derive(Debug)]
pub struct HandshakeStep {
    /// The `notifications/initialized` notification document.
    pub initialized_note: JsonValue,
    /// The framed line of the initialized notification.
    pub initialized_line: String,
    /// The id of the handshake tools/list request.
    pub tools_id: u64,
    /// The tools/list request document.
    pub tools_request: JsonValue,
    /// The framed line of the tools/list request.
    pub tools_line: String,
}

/// One MCP client session over a stdio transport.
pub struct McpClient {
    /// The transport that carries this session.
    pub transport: StdioTransport,
    /// Where the session stands in the handshake.
    pub phase: ClientPhase,
    /// The id of the in-flight handshake or refresh request.
    pub handshake_id: u64,
    /// The capabilities the server declared in the handshake.
    pub server_capabilities: Option<JsonValue>,
    /// The identity the server declared in the handshake.
    pub server_info: Option<ServerInfo>,
    /// The tool descriptors from the latest successful tools/list.
    pub tools: Vec<McpToolDef>,
}

impl McpClient {
    /// Well-formed session state.
    pub open spec fn wf(&self) -> bool {
        self.transport.wf()
    }

    /// The session is ready for tool calls.
    pub open spec fn ready(&self) -> bool {
        self.phase is Ready
    }

    /// Open a session on a freshly spawned process: frame the initialize
    /// request and await its response.
    pub fn connect_begin(child_pid: Option<u32>) -> (r: (McpClient, u64, JsonValue, String))
        ensures
            r.0.wf(),
            r.0.phase is Initializing,
            r.0.handshake_id == r.1,
            r.0.transport.child_pid == child_pid,
            !r.0.transport.is_closed(),
            r.0.tools@.len() == 0,
            r.0.server_info is None,
            r.0.server_capabilities is None,
            is_request_wire(r.2@, r.1 as int, "initialize"@, Some(crate::rpc::msg_params(r.2@)->0)),
            obj_field(crate::rpc::msg_params(r.2@)->0, "protocolVersion"@) == Some(
                JVal::Str("2025-03-26"@),
            ),
            r.3@ == json_text(r.2@) + seq!['\n'],
    {
        let mut transport = StdioTransport::new(child_pid);
        let params = initialize_params();
        match transport.begin_request("initialize", Some(params)) {
            Ok((id, req, line)) => {
                let client = McpClient {
                    transport,
                    phase: ClientPhase::Initializing,
                    handshake_id: id,
                    server_capabilities: None,
                    server_info: None,
                    tools: Vec::new(),
                };
                (client, id, req, line)
            },
            Err(_) => vstd::pervasive::unreached(),
        }
    }

    /// Accept the response to `initialize`: capture the server's declared
    /// capabilities and identity, frame the initialized notification, and
    /// frame the handshake tools/list request. A response without the
    /// expected shape aborts the session.
    pub fn on_initialize_reply(&mut self, v: &JsonValue) -> (r: Result<HandshakeStep, AppError>)
        requires
            old(self).wf(),
        ensures
            final(self).wf(),
            final(self).transport.child_pid == old(self).transport.child_pid,
            r is Ok <==> (old(self).phase is Initializing && init_result_shape(v@) && !old(
                self,
            ).transport.is_closed() && old(self).transport.pending.next_id < i64::MAX),
            match r {
                Ok(st) => {
                    &&& final(self).phase is ToolListing
                    &&& final(self).handshake_id == st.tools_id
                    &&& match final(self).server_info {
                        Some(info) => {
                            &&& Some(JVal::Str(info.name@)) == obj_field(
                                obj_field(response_result(v@)->0, "serverInfo"@)->0,
                                "name"@,
                            )
                            &&& Some(JVal::Str(info.version@)) == obj_field(
                                obj_field(response_result(v@)->0, "serverInfo"@)->0,
                                "version"@,
                            )
                        },
                        None => false,
                    }
                    &&& match final(self).server_capabilities {
                        Some(caps) => Some(caps@) == obj_field(
                            response_result(v@)->0,
                            "capabilities"@,
                        ),
                        None => false,
                    }
                    &&& crate::rpc::is_notification_wire(
                        st.initialized_note@,
                        "notifications/initialized"@,
                        None,
                    )
                    &&& st.initialized_line@ == json_text(st.initialized_note@) + seq!['\n']
                    &&& is_request_wire(
                        st.tools_request@,
                        st.tools_id as int,
                        "tools/list"@,
                        Some(crate::rpc::msg_params(st.tools_request@)->0),
                    )
                    &&& st.tools_line@ == json_text(st.tools_request@) + seq!['\n']
                },
                Err(_) => old(self).phase is Initializing ==> final(self).phase is Closed,
            },
            !(old(self).phase is Initializing) ==> *final(self) == *old(self),
    {
        match self.phase {
            ClientPhase::Initializing => {},
            _ => {
                return Err(AppError::Protocol(String::from_str("client is not initializing")));
            },
        }
        let (caps, info) = match parse_initialize_result(v) {
            Ok(x) => x,
            Err(e) => {
                self.phase = ClientPhase::Closed;
                return Err(e);
            },
        };
        let (note, note_line) = match self.transport.begin_notification(
            "notifications/initialized",
            None,
        ) {
            Ok(x) => x,
            Err(e) => {
                self.phase = ClientPhase::Closed;
                return Err(e);
            },
        };
        let (tools_id, tools_request, tools_line) = match self.transport.begin_request(
            "tools/list",
            Some(JsonValue::Obj(Vec::new())),
        ) {
            Ok(x) => x,
            Err(e) => {
                self.phase = ClientPhase::Closed;
                return Err(e);
            },
        };
        self.server_capabilities = Some(caps);
        self.server_info = Some(info);
        self.phase = ClientPhase::ToolListing;
        self.handshake_id = tools_id;
        Ok(HandshakeStep {
            initialized_note: note,
            initialized_line: note_line,
            tools_id,
            tools_request,
            tools_line,
        })
    }

    /// Accept the response to the handshake tools/list: store the
    /// discovered descriptors and become ready. A response without the
    /// expected shape aborts the session.
    pub fn on_tools_reply(&mut self, v: &JsonValue) -> (r: Result<(), AppError>)
        requires
            old(self).wf(),
        ensures
            final(self).wf(),
            final(self).transport.child_pid == old(self).transport.child_pid,
            r is Ok <==> (old(self).phase is ToolListing && tools_list_shape(v@)),
            match r {
                Ok(_) => {
                    &&& final(self).phase is Ready
                    &&& tools_match(final(self).tools@, listed_tools(v@))
                    &&& final(self).server_info == old(self).server_info
                    &&& final(self).server_capabilities == old(self).server_capabilities
                    &&& final(self).transport == old(self).transport
                },
                Err(e) => {
                    &&& e is Protocol
                    &&& (old(self).phase is ToolListing ==> final(self).phase is Closed)
                },
            },
            !(old(self).phase is ToolListing) ==> *final(self) == *old(self),
    {
        match self.phase {
            ClientPhase::ToolListing => {},
            _ => {
                return Err(AppError::Protocol(String::from_str("client is not listing tools")));
            },
        }
        match parse_tools_list(v) {
            Ok(ts) => {
                self.tools = ts;
                self.phase = ClientPhase::Ready;
                Ok(())
            },
            Err(e) => {
                self.phase = ClientPhase::Closed;
                Err(e)
            },
        }
    }

    /// Frame a fresh tools/list request, to replace the stored descriptors
    /// when its response arrives. Callable on demand once ready.
    pub fn begin_refresh_tools(&mut self) -> (r: Result<(u64, JsonValue, String), AppError>)
        requires
            old(self).wf(),
        ensures
            final(self).wf(),
            final(self).transport.child_pid == old(self).transport.child_pid,
            r is Ok <==> (old(self).phase is Ready && !old(self).transport.is_closed() && old(
                self,
            ).transport.pending.next_id < i64::MAX),
            match r {
                Ok((id, req, line)) => {
                    &&& final(self).phase is Ready
                    &&& final(self).handshake_id == id
                    &&& final(self).tools == old(self).tools
                    &&& is_request_wire(
                        req@,
                        id as int,
                        "tools/list"@,
                        Some(crate::rpc::msg_params(req@)->0),
                    )
                    &&& line@ == json_text(req@) + seq!['\n']
                },
                Err(e) => {
                    &&& final(self).phase == old(self).phase
                    &&& final(self).tools == old(self).tools
                    &&& (old(self).phase is Closed ==> e is TransportClosed)
                },
            },
    {
        match self.phase {
            ClientPhase::Ready => {},
            ClientPhase::Closed => {
                return Err(AppError::TransportClosed);
            },
            _ => {
                return Err(AppError::Protocol(String::from_str("client is not ready")));
            },
        }
        match self.transport.begin_request("tools/list", Some(JsonValue::Obj(Vec::new()))) {
            Ok((id, req, line)) => {
                self.handshake_id = id;
                Ok((id, req, line))
            },
            Err(e) => Err(e),
        }
    }

    /// Accept the response to a refresh tools/list and replace the stored
    /// descriptors. A failed refresh keeps the old descriptors.
    pub fn apply_tools_reply(&mut self, v: &JsonValue) -> (r: Result<(), AppError>)
        requires
            old(self).wf(),
        ensures
            final(self).wf(),
            r is Ok <==> (old(self).phase is Ready && tools_list_shape(v@)),
            match r {
                Ok(_) => {
                    &&& final(self).phase is Ready
                    &&& tools_match(final(self).tools@, listed_tools(v@))
                    &&& final(self).transport == old(self).transport
                },
                Err(e) => *final(self) == *old(self),
            },
    {
        match self.phase {
            ClientPhase::Ready => {},
            ClientPhase::Closed => {
                return Err(AppError::TransportClosed);
            },
            _ => {
                return Err(AppError::Protocol(String::from_str("client is not ready")));
            },
        }
        match parse_tools_list(v) {
            Ok(ts) => {
                self.tools = ts;
                Ok(())
            },
            Err(e) => Err(e),
        }
    }

    /// Frame a `tools/call` request for the named tool with the given
    /// arguments. Fails with the transport-closed failure once the session
    /// or its transport is shut down: a dead backend is detected by the
    /// next attempted call, which must fail rather than hang.
    pub fn begin_call_tool(&mut self, name: &str, arguments: JsonValue) -> (r: Result<
        (u64, JsonValue, String),
        AppError,
    >)
        requires
            old(self).wf(),
        ensures
            final(self).wf(),
            final(self).transport.child_pid == old(self).transport.child_pid,
            final(self).phase == old(self).phase,
            final(self).tools == old(self).tools,
            r is Ok <==> (old(self).phase is Ready && !old(self).transport.is_closed() && old(
                self,
            ).transport.pending.next_id < i64::MAX),
            match r {
                Ok((id, req, line)) => {
                    &&& is_request_wire(
                        req@,
                        id as int,
                        "tools/call"@,
                        Some(crate::rpc::msg_params(req@)->0),
                    )
                    &&& obj_field(crate::rpc::msg_params(req@)->0, "name"@) == Some(
                        JVal::Str(name@),
                    )
                    &&& obj_field(crate::rpc::msg_params(req@)->0, "arguments"@) == Some(
                        arguments@,
                    )
                    &&& line@ == json_text(req@) + seq!['\n']
                },
                Err(e) => {
                    &&& (old(self).phase is Closed ==> e is TransportClosed)
                    &&& (old(self).phase is Ready && old(self).transport.is_closed()
                        ==> e is TransportClosed)
                },
            },
    {
        match self.phase {
            ClientPhase::Ready => {},
            ClientPhase::Closed => {
                return Err(AppError::TransportClosed);
            },
            _ => {
                return Err(AppError::Protocol(String::from_str("client is not ready")));
            },
        }
        let params = call_tool_params(name, arguments);
        self.transport.begin_request("tools/call", Some(params))
    }

    /// Parse the response to a `tools/call` request.
    pub fn finish_call_tool(v: &JsonValue) -> (r: Result<CallToolResult, AppError>)
        ensures
            r is Ok <==> call_result_shape(v@),
            match r {
                Ok(ctr) => call_result_matches(ctr, v@),
                Err(e) => e is Protocol,
            },
    {
        parse_call_tool_result(v)
    }

    /// Dispatch one parsed line from the backend, resolving a pending
    /// request or classifying a notification.
    pub fn on_line(&mut self, v: &JsonValue) -> (r: LineAction)
        requires
            old(self).wf(),
        ensures
            final(self).wf(),
            final(self).phase == old(self).phase,
            final(self).tools == old(self).tools,
            final(self).transport.child_pid == old(self).transport.child_pid,
            match r {
                LineAction::Deliver(id) => {
                    &&& crate::rpc::msg_id(v@) == Some(JVal::Int(id as int))
                    &&& old(self).transport.pending.pending().contains(id)
                    &&& final(self).transport.pending.pending() == old(
                        self,
                    ).transport.pending.pending().remove(id)
                },
                LineAction::Notify => {
                    &&& crate::rpc::msg_id(v@) is None
                    &&& crate::rpc::msg_method(v@) is Some
                    &&& final(self).transport.pending == old(self).transport.pending
                },
                LineAction::Ignore => final(self).transport.pending == old(
                    self,
                ).transport.pending,
            },
    {
        self.transport.on_line(v)
    }

    /// The operating-system identifier of the backend process.
    pub fn child_pid(&self) -> (r: Option<u32>)
        ensures
            r == self.transport.child_pid,
    {
        self.transport.child_pid
    }

    /// Whether the handshake has completed and tool calls are accepted.
    pub fn is_ready(&self) -> (r: bool)
        ensures
            r == self.ready(),
    {
        match self.phase {
            ClientPhase::Ready => true,
            _ => false,
        }
    }

    /// Shut down the session: close the transport, cancel every pending
    /// request, and refuse every further use. Idempotent; the cancelled
    /// ids are handed back so each waiting caller can be failed with the
    /// transport-closed failure.
    pub fn shutdown(&mut self) -> (cancelled: Vec<u64>)
        requires
            old(self).wf(),
        ensures
            final(self).wf(),
            final(self).phase is Closed,
            final(self).transport.is_closed(),
            final(self).transport.child_pid == old(self).transport.child_pid,
            final(self).transport.pending.pending() == Set::<u64>::empty(),
            cancelled@.to_set() == old(self).transport.pending.pending(),
            cancelled@.no_duplicates(),
            old(self).transport.is_closed() ==> cancelled@.len() == 0,
    {
        self.phase = ClientPhase::Closed;
        self.transport.shutdown()
    }
}

/// The live client connections, keyed by backend identifier. At most one
/// client exists per identifier at a time; a connection is registered only
/// once its handshake has completed, and absence means "not connected".
pub struct McpConnections {
    /// The connections, in registration order, with distinct identifiers.
    pub pairs: Vec<(String, McpClient)>,
}

impl McpConnections {
    /// The registered client for an identifier, if one is present.
    pub open spec fn lookup(&self, id: Seq<char>) -> Option<McpClient> {
        assoc_lookup(self.pairs@, id)
    }

    /// Well-formedness: identifiers are distinct.
    pub open spec fn wf(&self) -> bool {
        forall|i: int, j: int|
            0 <= i < j < self.pairs@.len() ==> #[trigger] self.pairs@[i].0@ != #[trigger] self.pairs@[j].0@
    }

    /// An empty registry.
    pub fn new() -> (r: McpConnections)
        ensures
            r.wf(),
            forall|id: Seq<char>| r.lookup(id) is None,
    {
        McpConnections { pairs: Vec::new() }
    }

    /// Register a live connection under an identifier. The client must
    /// have completed its handshake. An entry already present under the
    /// identifier is replaced.
    pub fn insert(&mut self, id: String, client: McpClient)
        requires
            old(self).wf(),
            client.ready(),
        ensures
            final(self).wf(),
            final(self).lookup(id@) == Some(client),
            forall|k: Seq<char>| k != id@ ==> final(self).lookup(k) == old(self).lookup(k),
    {
        let mut i: usize = 0;
        let n = self.pairs.len();
        while i < n
            invariant
                *self == *old(self),
                old(self).wf(),
                n == self.pairs@.len(),
                i <= n,
                forall|j: int| 0 <= j < i ==> self.pairs@[j].0@ != id@,
            decreases n - i,
        {
            if crate::text::str_eq(self.pairs[i].0.as_str(), id.as_str()) {
                let ghost oldpairs = self.pairs@;
                let elem = &mut self.pairs[i];
                elem.1 = client;
                proof {
                    let np = self.pairs@;
                    assert(np == oldpairs.update(i as int, (oldpairs[i as int].0, client)));
                    assert(np[i as int].0@ == id@);
                    assert forall|a: int, b: int|
                        0 <= a < b < np.len() implies #[trigger] np[a].0@ != #[trigger] np[b].0@ by {
                        assert(oldpairs[a].0@ != oldpairs[b].0@);
                    }
                    lemma_assoc_lookup_at(np, id@, i as int);
                    assert forall|k: Seq<char>| k != id@ implies assoc_lookup(np, k) == assoc_lookup(
                        oldpairs,
                        k,
                    ) by {
                        lemma_assoc_lookup_update_other(oldpairs, i as int, client, k);
                    }
                }
                return;
            }
            i += 1;
        }
        let ghost oldpairs = self.pairs@;
        self.pairs.push((id, client));
        proof {
            let np = self.pairs@;
            assert forall|a: int, b: int|
                0 <= a < b < np.len() implies #[trigger] np[a].0@ != #[trigger] np[b].0@ by {
                if b < np.len() - 1 {
                    assert(oldpairs[a].0@ != oldpairs[b].0@);
                } else {
                    assert(np[a] == oldpairs[a]);
                }
            }
            lemma_assoc_lookup_at(np, id@, np.len() - 1);
            assert forall|k: Seq<char>| k != id@ implies assoc_lookup(np, k) == assoc_lookup(
                oldpairs,
                k,
            ) by {
                lemma_assoc_lookup_push_other(oldpairs, np[np.len() - 1], k);
            }
        }
    }

    /// Remove and return the connection for an identifier, or nothing if
    /// it is absent. The caller is responsible for shutting the returned
    /// client down.
    pub fn remove(&mut self, id: &str) -> (r: Option<McpClient>)
        requires
            old(self).wf(),
        ensures
            final(self).wf(),
            r == old(self).lookup(id@),
            final(self).lookup(id@) is None,
            forall|k: Seq<char>| k != id@ ==> final(self).lookup(k) == old(self).lookup(k),
    {
        let n = self.pairs.len();
        let mut i: usize = 0;
        while i < n
            invariant
                *self == *old(self),
                old(self).wf(),
                n == self.pairs@.len(),
                i <= n,
                forall|j: int| 0 <= j < i ==> self.pairs@[j].0@ != id@,
            decreases n - i,
        {
            if crate::text::str_eq(self.pairs[i].0.as_str(), id) {
                let ghost oldpairs = self.pairs@;
                let pair = self.pairs.remove(i);
                proof {
                    oldpairs.remove_ensures(i as int);
                    let np = self.pairs@;
                    assert forall|a: int, b: int|
                        0 <= a < b < np.len() implies #[trigger] np[a].0@ != #[trigger] np[b].0@ by {
                        let a0: int = if a < i { a } else { a + 1 };
                        let b0: int = if b < i { b } else { b + 1 };
                        assert(np[a] == oldpairs[a0] && np[b] == oldpairs[b0]);
                        assert(oldpairs[a0].0@ != oldpairs[b0].0@);
                    }
                    lemma_assoc_lookup_at(oldpairs, id@, i as int);
                    assert forall|j: int| 0 <= j < np.len() implies #[trigger] np[j].0@ != id@ by {
                        let j0: int = if j < i { j } else { j + 1 };
                        assert(np[j] == oldpairs[j0]);
                        if j0 != i {
                            assert(oldpairs[j0].0@ != oldpairs[i as int].0@);
                        }
                    }
                    lemma_assoc_lookup_absent(np, id@);
                    assert forall|k: Seq<char>| k != id@ implies assoc_lookup(np, k) == assoc_lookup(
                        oldpairs,
                        k,
                    ) by {
                        lemma_assoc_lookup_remove_other(oldpairs, i as int, k);
                    }
                }
                return Some(pair.1);
            }
            i += 1;
        }
        proof {
            lemma_assoc_lookup_absent(self.pairs@, id@);
        }
        None
    }

    /// The registered client for an identifier, for routing.
    pub fn get<'a>(&'a self, id: &str) -> (r: Option<&'a McpClient>)
        requires
            self.wf(),
        ensures
            match r {
                Some(c) => self.lookup(id@) == Some(*c),
                None => self.lookup(id@) is None,
            },
    {
        let n = self.pairs.len();
        let mut i: usize = 0;
        while i < n
            invariant
                self.wf(),
                n == self.pairs@.len(),
                i <= n,
                forall|j: int| 0 <= j < i ==> self.pairs@[j].0@ != id@,
            decreases n - i,
        {
            if crate::text::str_eq(self.pairs[i].0.as_str(), id) {
                proof {
                    lemma_assoc_lookup_at(self.pairs@, id@, i as int);
                }
                return Some(&self.pairs[i].1);
            }
            i += 1;
        }
        proof {
            lemma_assoc_lookup_absent(self.pairs@, id@);
        }
        None
    }

    /// Exclusive access to the registered client for an identifier.
    pub fn get_mut<'a>(&'a mut self, id: &str) -> (r: Option<&'a mut McpClient>)
        requires
            old(self).wf(),
        ensures
            match r {
                Some(c) => {
                    &&& old(self).lookup(id@) == Some(*c)
                    &&& final(self).wf()
                    &&& final(self).lookup(id@) == Some(*final(c))
                    &&& forall|k: Seq<char>|
                        k != id@ ==> final(self).lookup(k) == old(self).lookup(k)
                },
                None => {
                    &&& old(self).lookup(id@) is None
                    &&& *final(self) == *old(self)
                },
            },
    {
        let n = self.pairs.len();
        let mut i: usize = 0;
        while i < n
            invariant
                *self == *old(self),
                old(self).wf(),
                n == self.pairs@.len(),
                i <= n,
                forall|j: int| 0 <= j < i ==> self.pairs@[j].0@ != id@,
            decreases n - i,
        {
            if crate::text::str_eq(self.pairs[i].0.as_str(), id) {
                proof {
                    lemma_assoc_lookup_at(self.pairs@, id@, i as int);
                }
                let ghost oldpairs = self.pairs@;
                let ghost ii = i as int;
                proof {
                    assert forall|c2: McpClient|
                        #[trigger] assoc_lookup(oldpairs.update(ii, (oldpairs[ii].0, c2)), id@)
                            == Some(c2) by {
                        let np = oldpairs.update(ii, (oldpairs[ii].0, c2));
                        assert forall|j: int| 0 <= j < ii implies np[j].0@ != id@ by {
                            assert(np[j] == oldpairs[j]);
                        }
                        lemma_assoc_lookup_at(np, id@, ii);
                    }
                    assert forall|c2: McpClient, k: Seq<char>| k != id@ implies #[trigger] assoc_lookup(
                        oldpairs.update(ii, (oldpairs[ii].0, c2)),
                        k,
                    ) == assoc_lookup(oldpairs, k) by {
                        lemma_assoc_lookup_update_other(oldpairs, ii, c2, k);
                    }
                    assert forall|c2: McpClient, a: int, b: int|
                        0 <= a < b < oldpairs.len() implies #[trigger] oldpairs.update(
                        ii,
                        (oldpairs[ii].0, c2),
                    )[a].0@ != #[trigger] oldpairs.update(ii, (oldpairs[ii].0, c2))[b].0@ by {
                        let np = oldpairs.update(ii, (oldpairs[ii].0, c2));
                        assert(np[a].0 == oldpairs[a].0 && np[b].0 == oldpairs[b].0);
                        assert(oldpairs[a].0@ != oldpairs[b].0@);
                    }
                }
                let pair = &mut self.pairs[i];
                let r = &mut pair.1;
                proof {
                    assert(*r == oldpairs[ii].1);
                }
                return Some(r);
            }
            i += 1;
        }
        proof {
            lemma_assoc_lookup_absent(self.pairs@, id@);
        }
        None
    }
}

} // verus!
