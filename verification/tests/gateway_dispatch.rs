//! The gateway: origin gate, notification acknowledgement, method
//! dispatch, namespaced routing, and the tool round trip.

use mcp_gateway::AppState;
use mcp_gateway::GatewayStep;
use mcp_gateway::JsonValue;
use mcp_gateway::McpClient;
use mcp_gateway::McpConnections;
use mcp_gateway::ServerConfig;
use mcp_gateway::ServerTransport;
use mcp_gateway::gateway::handle_post;
use mcp_gateway::gateway::wrap_call_outcome;
use mcp_gateway::http::method_not_allowed_response;

fn s(x: &str) -> JsonValue {
    JsonValue::Str(x.to_string())
}

fn obj(fields: Vec<(&str, JsonValue)>) -> JsonValue {
    JsonValue::Obj(fields.into_iter().map(|(k, v)| (k.to_string(), v)).collect())
}

fn init_response(id: i64) -> JsonValue {
    obj(vec![
        ("jsonrpc", s("2.0")),
        ("id", JsonValue::Int(id)),
        (
            "result",
            obj(vec![
                ("protocolVersion", s("2025-03-26")),
                ("capabilities", obj(vec![])),
                (
                    "serverInfo",
                    obj(vec![("name", s("stub")), ("version", s("1.0"))]),
                ),
            ]),
        ),
    ])
}

fn tools_response(id: i64, names: &[&str]) -> JsonValue {
    let tools: Vec<JsonValue> = names
        .iter()
        .map(|n| obj(vec![("name", s(n)), ("inputSchema", obj(vec![]))]))
        .collect();
    obj(vec![
        ("jsonrpc", s("2.0")),
        ("id", JsonValue::Int(id)),
        ("result", obj(vec![("tools", JsonValue::Arr(tools))])),
    ])
}

fn connected_client(tool_names: &[&str]) -> McpClient {
    let (mut client, init_id, _req, _line) = McpClient::connect_begin(Some(5));
    let init = init_response(init_id as i64);
    client.on_line(&init);
    let step = client
        .on_initialize_reply(&init)
        .expect("well-formed initialize response");
    let tools = tools_response(step.tools_id as i64, tool_names);
    client.on_line(&tools);
    client.on_tools_reply(&tools).expect("well-formed tools response");
    client
}

fn stub_server(id: &str, name: &str) -> ServerConfig {
    ServerConfig {
        id: id.to_string(),
        name: name.to_string(),
        transport: ServerTransport::Stdio,
        command: Some("stub-backend".to_string()),
        args: None,
        env: None,
        url: None,
        status: None,
        last_connected: None,
    }
}

/// One gateway with the backend `stub` connected, advertising `echo`.
fn gateway_with_stub() -> (AppState, McpConnections) {
    let mut state = AppState::new();
    state.servers.push(stub_server("srv-1", "stub"));
    let mut conns = McpConnections::new();
    let client = connected_client(&["echo"]);
    state.commit_connect(&mut conns, "srv-1", client, "1700000000".to_string());
    (state, conns)
}

fn body_of(step: GatewayStep) -> String {
    match step {
        GatewayStep::Respond(resp) => {
            assert_eq!(resp.status, 200);
            resp.body
        }
        GatewayStep::CallBackend { .. } => panic!("expected a finished response"),
    }
}

#[test]
fn get_is_method_not_allowed() {
    let r = method_not_allowed_response();
    assert_eq!(r.status, 405);
    assert!(r.body.is_empty());
}

#[test]
fn foreign_origin_gets_403() {
    let (state, conns) = gateway_with_stub();
    let body = obj(vec![("jsonrpc", s("2.0")), ("method", s("ping"))]);
    match handle_post(&state, &conns, Some("https://evil.example.com"), None, &body) {
        GatewayStep::Respond(resp) => {
            assert_eq!(resp.status, 403);
            assert!(resp.body.contains("https://evil.example.com"));
        }
        _ => panic!("a refused origin must not reach dispatch"),
    }
}

#[test]
fn message_without_id_yields_202_for_every_method() {
    let (state, conns) = gateway_with_stub();
    for method in &["initialize", "tools/list", "tools/call", "no/such/method"] {
        let body = obj(vec![("jsonrpc", s("2.0")), ("method", s(method))]);
        match handle_post(&state, &conns, None, None, &body) {
            GatewayStep::Respond(resp) => {
                assert_eq!(resp.status, 202, "method {method}");
                assert!(resp.body.is_empty(), "method {method}");
            }
            _ => panic!("a notification must be acknowledged, method {method}"),
        }
    }
}

#[test]
fn initialize_negotiates_version() {
    let (state, conns) = gateway_with_stub();
    let body = obj(vec![
        ("jsonrpc", s("2.0")),
        ("id", JsonValue::Int(1)),
        ("method", s("initialize")),
        ("params", obj(vec![("protocolVersion", s("2025-03-26"))])),
    ]);
    let text = body_of(handle_post(&state, &conns, None, None, &body));
    let parsed: serde_json::Value = serde_json::from_str(&text).expect("JSON body");
    assert_eq!(parsed["id"], 1);
    assert_eq!(parsed["result"]["protocolVersion"], "2025-03-26");
    assert_eq!(parsed["result"]["serverInfo"]["name"], "MCP Manager Proxy");

    let old = obj(vec![
        ("jsonrpc", s("2.0")),
        ("id", JsonValue::Int(2)),
        ("method", s("initialize")),
        ("params", obj(vec![("protocolVersion", s("2019-01-01"))])),
    ]);
    let text = body_of(handle_post(&state, &conns, None, None, &old));
    let parsed: serde_json::Value = serde_json::from_str(&text).expect("JSON body");
    assert_eq!(parsed["result"]["protocolVersion"], "2025-06-18");
}

#[test]
fn tools_list_is_namespaced() {
    let (state, conns) = gateway_with_stub();
    let body = obj(vec![
        ("jsonrpc", s("2.0")),
        ("id", JsonValue::Int(3)),
        ("method", s("tools/list")),
    ]);
    let text = body_of(handle_post(&state, &conns, None, None, &body));
    let parsed: serde_json::Value = serde_json::from_str(&text).expect("JSON body");
    let tools = parsed["result"]["tools"].as_array().expect("tools array");
    assert_eq!(tools.len(), 1);
    assert_eq!(tools[0]["name"], "stub.echo");
}

#[test]
fn unknown_method_is_32601() {
    let (state, conns) = gateway_with_stub();
    let body = obj(vec![
        ("jsonrpc", s("2.0")),
        ("id", JsonValue::Int(4)),
        ("method", s("resources/list")),
    ]);
    let text = body_of(handle_post(&state, &conns, None, None, &body));
    let parsed: serde_json::Value = serde_json::from_str(&text).expect("JSON body");
    assert_eq!(parsed["error"]["code"], -32601);
}

#[test]
fn call_on_unconnected_backend_is_32602_not_http_error() {
    let mut state = AppState::new();
    state.servers.push(stub_server("srv-1", "stub"));
    let conns = McpConnections::new();
    let body = obj(vec![
        ("jsonrpc", s("2.0")),
        ("id", JsonValue::Int(5)),
        ("method", s("tools/call")),
        ("params", obj(vec![("name", s("stub.echo"))])),
    ]);
    match handle_post(&state, &conns, None, None, &body) {
        GatewayStep::Respond(resp) => {
            assert_eq!(resp.status, 200, "a routing failure is never an HTTP failure");
            let parsed: serde_json::Value = serde_json::from_str(&resp.body).expect("JSON body");
            assert_eq!(parsed["error"]["code"], -32602);
            assert_eq!(parsed["id"], 5);
        }
        _ => panic!("an unconnected backend must be refused, not called"),
    }
}

#[test]
fn call_with_unnamespaced_name_is_32602() {
    let (state, conns) = gateway_with_stub();
    let body = obj(vec![
        ("jsonrpc", s("2.0")),
        ("id", JsonValue::Int(6)),
        ("method", s("tools/call")),
        ("params", obj(vec![("name", s("echo"))])),
    ]);
    let text = body_of(handle_post(&state, &conns, None, None, &body));
    let parsed: serde_json::Value = serde_json::from_str(&text).expect("JSON body");
    assert_eq!(parsed["error"]["code"], -32602);
}

#[test]
fn call_without_params_is_32602() {
    let (state, conns) = gateway_with_stub();
    let body = obj(vec![
        ("jsonrpc", s("2.0")),
        ("id", JsonValue::Int(7)),
        ("method", s("tools/call")),
    ]);
    let text = body_of(handle_post(&state, &conns, None, None, &body));
    let parsed: serde_json::Value = serde_json::from_str(&text).expect("JSON body");
    assert_eq!(parsed["error"]["code"], -32602);
}

#[test]
fn listed_tool_round_trips_through_echoing_backend() {
    let (state, conns) = gateway_with_stub();

    // Discover the tool through the gateway's own listing.
    let list = obj(vec![
        ("jsonrpc", s("2.0")),
        ("id", JsonValue::Int(10)),
        ("method", s("tools/list")),
    ]);
    let text = body_of(handle_post(&state, &conns, None, None, &list));
    let parsed: serde_json::Value = serde_json::from_str(&text).expect("JSON body");
    let listed_name = parsed["result"]["tools"][0]["name"]
        .as_str()
        .expect("tool name")
        .to_string();

    // Call it back, with arguments the stub backend will echo.
    let arguments = obj(vec![("x", JsonValue::Int(42)), ("s", s("keep me"))]);
    let call = obj(vec![
        ("jsonrpc", s("2.0")),
        ("id", JsonValue::Int(11)),
        ("method", s("tools/call")),
        ("params", obj(vec![("name", s(&listed_name)), ("arguments", arguments)])),
    ]);
    let (server_id, tool_name, sent_args, request_id) =
        match handle_post(&state, &conns, None, None, &call) {
            GatewayStep::CallBackend { server_id, tool_name, arguments, request_id, .. } => {
                (server_id, tool_name, arguments, request_id)
            }
            _ => panic!("a connected backend must be called"),
        };
    assert_eq!(server_id, "srv-1");
    assert_eq!(tool_name, "echo");

    // The stub backend echoes its arguments as one content item.
    let echoed = mcp_gateway::CallToolResult { content: vec![sent_args], is_error: None };
    let response = wrap_call_outcome(request_id, Ok(echoed));
    let text = mcp_gateway::json::to_json_string(&response);
    let parsed: serde_json::Value = serde_json::from_str(&text).expect("JSON body");
    assert_eq!(parsed["id"], 11);
    assert_eq!(parsed["result"]["content"][0]["x"], 42);
    assert_eq!(parsed["result"]["content"][0]["s"], "keep me");
}

#[test]
fn failed_call_wraps_as_32603() {
    let response = wrap_call_outcome(
        JsonValue::Int(12),
        Err(mcp_gateway::AppError::TransportClosed),
    );
    let text = mcp_gateway::json::to_json_string(&response);
    let parsed: serde_json::Value = serde_json::from_str(&text).expect("JSON body");
    assert_eq!(parsed["error"]["code"], -32603);
    assert_eq!(parsed["error"]["message"], "Tool call failed: Transport closed");
}

#[test]
fn sse_accept_header_switches_framing() {
    let (state, conns) = gateway_with_stub();
    let body = obj(vec![
        ("jsonrpc", s("2.0")),
        ("id", JsonValue::Int(13)),
        ("method", s("tools/list")),
    ]);
    match handle_post(&state, &conns, None, Some("text/event-stream"), &body) {
        GatewayStep::Respond(resp) => {
            assert_eq!(resp.status, 200);
            assert!(resp.body.starts_with("event: message\ndata: "));
            assert!(resp.body.ends_with("\n\n"));
        }
        _ => panic!("expected a finished response"),
    }
}
