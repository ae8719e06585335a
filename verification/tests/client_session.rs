//! The client handshake and tool calls, driven against stub responses.

use mcp_gateway::AppError;
use mcp_gateway::JsonValue;
use mcp_gateway::McpClient;

fn s(x: &str) -> JsonValue {
    JsonValue::Str(x.to_string())
}

fn obj(fields: Vec<(&str, JsonValue)>) -> JsonValue {
    JsonValue::Obj(fields.into_iter().map(|(k, v)| (k.to_string(), v)).collect())
}

fn init_response(id: i64) -> JsonValue {
    obj(vec![
        ("jsonrpc", s("2.0")),
        ("id", JsonValue::Int(id)),
        (
            "result",
            obj(vec![
                ("protocolVersion", s("2025-03-26")),
                ("capabilities", obj(vec![("tools", obj(vec![]))])),
                (
                    "serverInfo",
                    obj(vec![("name", s("stub")), ("version", s("1.0"))]),
                ),
            ]),
        ),
    ])
}

fn tools_response(id: i64, names: &[&str]) -> JsonValue {
    let tools: Vec<JsonValue> = names
        .iter()
        .map(|n| obj(vec![("name", s(n)), ("inputSchema", obj(vec![]))]))
        .collect();
    obj(vec![
        ("jsonrpc", s("2.0")),
        ("id", JsonValue::Int(id)),
        ("result", obj(vec![("tools", JsonValue::Arr(tools))])),
    ])
}

/// Drive the whole handshake against a stub backend, delivering each
/// response through the read-loop dispatch first.
fn connected_client(tool_names: &[&str]) -> McpClient {
    let (mut client, init_id, _req, line) = McpClient::connect_begin(Some(77));
    assert!(line.ends_with('\n'));
    let init = init_response(init_id as i64);
    match client.on_line(&init) {
        mcp_gateway::LineAction::Deliver(id) => assert_eq!(id, init_id),
        _ => panic!("the initialize response answers the pending request"),
    }
    let step = client
        .on_initialize_reply(&init)
        .expect("well-formed initialize response");
    let tools = tools_response(step.tools_id as i64, tool_names);
    match client.on_line(&tools) {
        mcp_gateway::LineAction::Deliver(id) => assert_eq!(id, step.tools_id),
        _ => panic!("the tools response answers the pending request"),
    }
    client.on_tools_reply(&tools).expect("well-formed tools response");
    client
}

#[test]
fn handshake_completes_in_order() {
    let client = connected_client(&["echo", "sum"]);
    assert!(client.is_ready());
    assert_eq!(client.child_pid(), Some(77));
    assert_eq!(client.tools.len(), 2);
    assert_eq!(client.tools[0].name, "echo");
    assert_eq!(client.tools[1].name, "sum");
    let info = client.server_info.as_ref().expect("captured server info");
    assert_eq!(info.name, "stub");
    assert_eq!(info.version, "1.0");
}

#[test]
fn handshake_sends_initialized_then_tools_list() {
    let (mut client, init_id, _req, _line) = McpClient::connect_begin(None);
    let step = client
        .on_initialize_reply(&init_response(init_id as i64))
        .expect("well-formed initialize response");
    let note: serde_json::Value =
        serde_json::from_str(step.initialized_line.trim_end()).expect("framed notification");
    assert_eq!(note["method"], "notifications/initialized");
    assert!(note.get("id").is_none());
    let tools_req: serde_json::Value =
        serde_json::from_str(step.tools_line.trim_end()).expect("framed request");
    assert_eq!(tools_req["method"], "tools/list");
    assert_eq!(tools_req["id"], step.tools_id);
}

#[test]
fn malformed_initialize_aborts_connect() {
    let (mut client, init_id, _req, _line) = McpClient::connect_begin(None);
    let bad = obj(vec![
        ("jsonrpc", s("2.0")),
        ("id", JsonValue::Int(init_id as i64)),
        ("result", obj(vec![("capabilities", obj(vec![]))])),
    ]);
    match client.on_initialize_reply(&bad) {
        Err(AppError::Protocol(_)) => {}
        other => panic!("expected a protocol failure, got {other:?}"),
    }
    assert!(!client.is_ready());
}

#[test]
fn call_tool_builds_exact_request() {
    let mut client = connected_client(&["echo"]);
    let args = obj(vec![("x", JsonValue::Int(42))]);
    let (id, _req, line) = client.begin_call_tool("echo", args).expect("ready client");
    let parsed: serde_json::Value =
        serde_json::from_str(line.trim_end()).expect("framed request");
    assert_eq!(parsed["method"], "tools/call");
    assert_eq!(parsed["id"], id);
    assert_eq!(parsed["params"]["name"], "echo");
    assert_eq!(parsed["params"]["arguments"]["x"], 42);
}

#[test]
fn finish_call_tool_parses_content() {
    let resp = obj(vec![
        ("jsonrpc", s("2.0")),
        ("id", JsonValue::Int(4)),
        (
            "result",
            obj(vec![
                (
                    "content",
                    JsonValue::Arr(vec![obj(vec![("type", s("text")), ("text", s("hi"))])]),
                ),
                ("isError", JsonValue::Bool(false)),
            ]),
        ),
    ]);
    let ctr = McpClient::finish_call_tool(&resp).expect("well-formed result");
    assert_eq!(ctr.content.len(), 1);
    assert_eq!(ctr.is_error, Some(false));

    let no_result = obj(vec![("jsonrpc", s("2.0")), ("id", JsonValue::Int(4))]);
    match McpClient::finish_call_tool(&no_result) {
        Err(AppError::Protocol(_)) => {}
        other => panic!("expected a protocol failure, got {other:?}"),
    }
}

#[test]
fn dead_backend_fails_next_call_with_transport_closed() {
    let mut client = connected_client(&["echo"]);
    let cancelled = client.shutdown();
    assert!(cancelled.is_empty(), "no request was in flight");
    match client.begin_call_tool("echo", obj(vec![])) {
        Err(AppError::TransportClosed) => {}
        other => panic!("expected the transport-closed failure, got {other:?}"),
    }
    match client.begin_refresh_tools() {
        Err(AppError::TransportClosed) => {}
        other => panic!("expected the transport-closed failure, got {other:?}"),
    }
}

#[test]
fn refresh_tools_replaces_descriptors() {
    let mut client = connected_client(&["echo"]);
    let (id, _req, _line) = client.begin_refresh_tools().expect("ready client");
    client
        .apply_tools_reply(&tools_response(id as i64, &["echo", "extra"]))
        .expect("well-formed tools response");
    assert_eq!(client.tools.len(), 2);
    assert_eq!(client.tools[1].name, "extra");
}
