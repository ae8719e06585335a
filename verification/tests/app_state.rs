//! The connect/disconnect decisions, the registry, and the OAuth store.

use mcp_gateway::AppError;
use mcp_gateway::AppState;
use mcp_gateway::AuthServerMetadata;
use mcp_gateway::JsonValue;
use mcp_gateway::McpClient;
use mcp_gateway::McpConnections;
use mcp_gateway::OAuthState;
use mcp_gateway::OAuthStore;
use mcp_gateway::ServerConfig;
use mcp_gateway::ServerStatus;
use mcp_gateway::ServerTransport;
use mcp_gateway::state::chrono_now;

fn s(x: &str) -> JsonValue {
    JsonValue::Str(x.to_string())
}

fn obj(fields: Vec<(&str, JsonValue)>) -> JsonValue {
    JsonValue::Obj(fields.into_iter().map(|(k, v)| (k.to_string(), v)).collect())
}

fn stub_server(id: &str, name: &str, command: Option<&str>) -> ServerConfig {
    ServerConfig {
        id: id.to_string(),
        name: name.to_string(),
        transport: ServerTransport::Stdio,
        command: command.map(|c| c.to_string()),
        args: Some(vec!["--serve".to_string()]),
        env: Some(vec![("KEY".to_string(), "VALUE".to_string())]),
        url: None,
        status: None,
        last_connected: None,
    }
}

fn connected_client() -> McpClient {
    let (mut client, init_id, _req, _line) = McpClient::connect_begin(Some(9));
    let init = obj(vec![
        ("jsonrpc", s("2.0")),
        ("id", JsonValue::Int(init_id as i64)),
        (
            "result",
            obj(vec![
                ("capabilities", obj(vec![])),
                ("serverInfo", obj(vec![("name", s("stub")), ("version", s("1.0"))])),
            ]),
        ),
    ]);
    client.on_line(&init);
    let step = client.on_initialize_reply(&init).expect("initialize reply");
    let tools = obj(vec![
        ("jsonrpc", s("2.0")),
        ("id", JsonValue::Int(step.tools_id as i64)),
        (
            "result",
            obj(vec![(
                "tools",
                JsonValue::Arr(vec![obj(vec![("name", s("echo")), ("inputSchema", obj(vec![]))])]),
            )]),
        ),
    ]);
    client.on_line(&tools);
    client.on_tools_reply(&tools).expect("tools reply");
    client
}

#[test]
fn prepare_connect_checks_configuration() {
    let mut state = AppState::new();
    state.servers.push(stub_server("a", "alpha", Some("run-alpha")));

    match state.prepare_connect("missing") {
        Err(AppError::ServerNotFound(id)) => assert_eq!(id, "missing"),
        other => panic!("expected server-not-found, got {other:?}"),
    }

    let ls = state.prepare_connect("a").expect("configured stdio server");
    assert_eq!(ls.command, "run-alpha");
    assert_eq!(ls.args, vec!["--serve".to_string()]);
    assert_eq!(ls.env, vec![("KEY".to_string(), "VALUE".to_string())]);
    assert_eq!(state.servers[0].status, Some(ServerStatus::Connecting));
}

#[test]
fn prepare_connect_refuses_bad_configurations() {
    let mut state = AppState::new();
    let mut http_server = stub_server("h", "hyper", Some("x"));
    http_server.transport = ServerTransport::Http;
    state.servers.push(http_server);
    state.servers.push(stub_server("n", "nocmd", None));
    let mut connected = stub_server("c", "conn", Some("x"));
    connected.status = Some(ServerStatus::Connected);
    state.servers.push(connected);

    match state.prepare_connect("h") {
        Err(AppError::Transport(_)) => {}
        other => panic!("expected a transport failure, got {other:?}"),
    }
    match state.prepare_connect("n") {
        Err(AppError::ConnectionFailed(_)) => {}
        other => panic!("expected connection-failed, got {other:?}"),
    }
    match state.prepare_connect("c") {
        Err(AppError::AlreadyConnected(_)) => {}
        other => panic!("expected already-connected, got {other:?}"),
    }
}

#[test]
fn commit_connect_registers_only_after_handshake() {
    let mut state = AppState::new();
    state.servers.push(stub_server("a", "alpha", Some("run-alpha")));
    let mut conns = McpConnections::new();
    let client = connected_client();
    assert!(client.is_ready(), "registration demands a completed handshake");

    state.commit_connect(&mut conns, "a", client, "1700000000".to_string());
    assert_eq!(state.servers[0].status, Some(ServerStatus::Connected));
    assert_eq!(state.servers[0].last_connected, Some("1700000000".to_string()));
    assert!(conns.get("a").is_some());

    let summary = state
        .connections
        .iter()
        .find(|(k, _)| k == "a")
        .map(|(_, cs)| cs)
        .expect("stored connection summary");
    assert_eq!(summary.child_pid, Some(9));
    assert_eq!(summary.tools.len(), 1);
    assert_eq!(summary.tools[0].name, "echo");
    assert_eq!(summary.tools[0].server_id, "a");
    assert_eq!(summary.tools[0].server_name, "alpha");
}

#[test]
fn fail_connect_marks_error() {
    let mut state = AppState::new();
    state.servers.push(stub_server("a", "alpha", Some("run-alpha")));
    state.prepare_connect("a").expect("configured server");
    state.fail_connect("a");
    assert_eq!(state.servers[0].status, Some(ServerStatus::Error));
}

#[test]
fn disconnect_shuts_down_then_commits() {
    let mut state = AppState::new();
    state.servers.push(stub_server("a", "alpha", Some("run-alpha")));
    let mut conns = McpConnections::new();
    state.commit_connect(&mut conns, "a", connected_client(), chrono_now());

    let mut removed = conns.remove("a").expect("registered connection");
    let _cancelled = removed.shutdown();
    assert!(!removed.is_ready());
    state.disconnect_commit("a").expect("configured server");
    assert_eq!(state.servers[0].status, Some(ServerStatus::Disconnected));
    assert!(state.connections.iter().all(|(k, _)| k != "a"));
    assert!(conns.get("a").is_none());

    match state.disconnect_commit("missing") {
        Err(AppError::ServerNotFound(_)) => {}
        other => panic!("expected server-not-found, got {other:?}"),
    }
}

#[test]
fn registry_keeps_one_client_per_identifier() {
    let mut conns = McpConnections::new();
    conns.insert("a".to_string(), connected_client());
    conns.insert("b".to_string(), connected_client());
    assert!(conns.get("a").is_some());
    assert!(conns.get("b").is_some());
    assert!(conns.get("c").is_none());

    conns.insert("a".to_string(), connected_client());
    assert_eq!(conns.pairs.len(), 2, "insert under a present key replaces");

    let got = conns.get_mut("a").expect("present key");
    let _ = got.shutdown();
    assert!(conns.remove("a").is_some());
    assert!(conns.remove("a").is_none());
}

#[test]
fn list_tools_reads_one_connection() {
    let mut state = AppState::new();
    state.servers.push(stub_server("a", "alpha", Some("run-alpha")));
    let mut conns = McpConnections::new();
    state.commit_connect(&mut conns, "a", connected_client(), chrono_now());

    let tools = mcp_gateway::list_tools(&state, "a").expect("connected backend");
    assert_eq!(tools.len(), 1);
    assert_eq!(tools[0].name, "echo");
    match mcp_gateway::list_tools(&state, "b") {
        Err(AppError::ServerNotFound(_)) => {}
        other => panic!("expected server-not-found, got {other:?}"),
    }
}

#[test]
fn list_all_tools_namespaces_names() {
    let mut state = AppState::new();
    state.servers.push(stub_server("a", "alpha", Some("run-alpha")));
    let mut conns = McpConnections::new();
    state.commit_connect(&mut conns, "a", connected_client(), chrono_now());

    let tools = mcp_gateway::list_all_tools(&state);
    assert_eq!(tools.len(), 1);
    assert_eq!(tools[0].name, "alpha.echo");
    assert_eq!(tools[0].server_id, "a");
}

#[test]
fn chrono_now_is_decimal_seconds() {
    let now = chrono_now();
    assert!(!now.is_empty());
    assert!(now.chars().all(|c| c.is_ascii_digit()));
}

#[test]
fn oauth_store_keys_by_server() {
    let mut store = OAuthStore::new();
    let st = OAuthState {
        auth_server_metadata: AuthServerMetadata {
            issuer: "https://issuer.example".to_string(),
            authorization_endpoint: "https://issuer.example/auth".to_string(),
            token_endpoint: "https://issuer.example/token".to_string(),
            registration_endpoint: None,
            scopes_supported: vec![],
            code_challenge_methods_supported: vec!["S256".to_string()],
        },
        client_id: Some("client-1".to_string()),
        client_secret: None,
        tokens: None,
    };
    store.set("a".to_string(), st);
    assert!(store.get("a").is_some());
    assert_eq!(store.get("a").unwrap().client_id, Some("client-1".to_string()));
    assert!(store.get("b").is_none());
    assert_eq!(store.entries_mut().len(), 1);
    assert!(store.remove("a").is_some());
    assert!(store.get("a").is_none());
}
