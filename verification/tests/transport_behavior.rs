//! Request correlation: unique ids, at-most-once resolution, shutdown.

use mcp_gateway::AppError;
use mcp_gateway::JsonValue;
use mcp_gateway::LineAction;
use mcp_gateway::StdioTransport;

fn response_with_id(id: i64) -> JsonValue {
    JsonValue::Obj(vec![
        ("jsonrpc".to_string(), JsonValue::Str("2.0".to_string())),
        ("id".to_string(), JsonValue::Int(id)),
        ("result".to_string(), JsonValue::Obj(vec![])),
    ])
}

#[test]
fn request_ids_are_fresh_and_increasing() {
    let mut t = StdioTransport::new(Some(123));
    let (id1, _, _) = t.begin_request("tools/list", None).expect("open transport");
    let (id2, _, _) = t.begin_request("tools/list", None).expect("open transport");
    let (id3, _, _) = t.begin_request("tools/call", None).expect("open transport");
    assert!(id1 < id2 && id2 < id3);
}

#[test]
fn request_line_is_framed_json() {
    let mut t = StdioTransport::new(None);
    let (id, req, line) = t
        .begin_request("tools/list", Some(JsonValue::Obj(vec![])))
        .expect("open transport");
    assert_eq!(id, 1);
    assert!(line.ends_with('\n'));
    let parsed: serde_json::Value =
        serde_json::from_str(line.trim_end()).expect("well-formed JSON line");
    assert_eq!(parsed["jsonrpc"], "2.0");
    assert_eq!(parsed["id"], 1);
    assert_eq!(parsed["method"], "tools/list");
    assert_eq!(parsed["params"], serde_json::Value::Object(serde_json::Map::new()));
    let _ = req;
}

#[test]
fn notification_line_has_no_id() {
    let t = StdioTransport::new(None);
    let (_, line) = t
        .begin_notification("notifications/initialized", None)
        .expect("open transport");
    let parsed: serde_json::Value =
        serde_json::from_str(line.trim_end()).expect("well-formed JSON line");
    assert_eq!(parsed["jsonrpc"], "2.0");
    assert_eq!(parsed["method"], "notifications/initialized");
    assert!(parsed.get("id").is_none());
}

#[test]
fn same_id_resolves_at_most_once() {
    let mut t = StdioTransport::new(None);
    let (id, _, _) = t.begin_request("tools/call", None).expect("open transport");
    let resp = response_with_id(id as i64);
    match t.on_line(&resp) {
        LineAction::Deliver(got) => assert_eq!(got, id),
        _ => panic!("first response must deliver"),
    }
    match t.on_line(&resp) {
        LineAction::Ignore => {}
        _ => panic!("second response with the same id must be dropped"),
    }
}

#[test]
fn notification_lines_are_classified() {
    let mut t = StdioTransport::new(None);
    let note = JsonValue::Obj(vec![
        ("jsonrpc".to_string(), JsonValue::Str("2.0".to_string())),
        (
            "method".to_string(),
            JsonValue::Str("notifications/tools/list_changed".to_string()),
        ),
    ]);
    match t.on_line(&note) {
        LineAction::Notify => {}
        _ => panic!("a message with a method and no id is a notification"),
    }
    match t.on_line(&response_with_id(99)) {
        LineAction::Ignore => {}
        _ => panic!("a response for no pending request is dropped"),
    }
}

#[test]
fn shutdown_cancels_every_pending_request() {
    let mut t = StdioTransport::new(None);
    let (id1, _, _) = t.begin_request("tools/call", None).expect("open transport");
    let (id2, _, _) = t.begin_request("tools/call", None).expect("open transport");
    let mut cancelled = t.shutdown();
    cancelled.sort();
    assert_eq!(cancelled, vec![id1, id2]);
    assert!(t.shutdown().is_empty(), "shutdown is idempotent");
}

#[test]
fn closed_transport_refuses_requests() {
    let mut t = StdioTransport::new(None);
    let _ = t.shutdown();
    match t.begin_request("tools/call", None) {
        Err(AppError::TransportClosed) => {}
        other => panic!("expected the transport-closed failure, got {other:?}"),
    }
    match t.begin_notification("notifications/initialized", None) {
        Err(AppError::TransportClosed) => {}
        other => panic!("expected the transport-closed failure, got {other:?}"),
    }
}
