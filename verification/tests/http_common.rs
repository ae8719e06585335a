//! Protocol negotiation, origin validation and response shaping.

use mcp_gateway::HttpResponse;
use mcp_gateway::JsonValue;
use mcp_gateway::http::accepted_response;
use mcp_gateway::http::client_accepts_sse;
use mcp_gateway::http::json_response;
use mcp_gateway::http::mcp_response;
use mcp_gateway::http::negotiate_version;
use mcp_gateway::http::new_session_id;
use mcp_gateway::http::sse_response;
use mcp_gateway::http::validate_origin;
use mcp_gateway::json::to_json_string;

fn header<'a>(r: &'a HttpResponse, k: &str) -> Option<&'a str> {
    r.headers.iter().find(|(n, _)| n == k).map(|(_, v)| v.as_str())
}

fn sample_body() -> JsonValue {
    JsonValue::Obj(vec![
        ("jsonrpc".to_string(), JsonValue::Str("2.0".to_string())),
        ("id".to_string(), JsonValue::Int(1)),
        ("result".to_string(), JsonValue::Obj(vec![])),
    ])
}

#[test]
fn negotiate_known_version() {
    assert_eq!(negotiate_version("2025-03-26"), "2025-03-26");
    assert_eq!(negotiate_version("2024-11-05"), "2024-11-05");
}

#[test]
fn negotiate_unknown_version_returns_latest() {
    assert_eq!(negotiate_version("2019-01-01"), "2025-06-18");
    assert_eq!(negotiate_version(""), "2025-06-18");
}

#[test]
fn no_origin_allowed() {
    assert!(validate_origin(None).is_ok());
}

#[test]
fn localhost_origins_allowed() {
    for origin in &[
        "http://localhost",
        "http://localhost:3000",
        "http://127.0.0.1",
        "http://127.0.0.1:8080",
        "http://[::1]",
        "http://[::1]:4000",
    ] {
        assert!(
            validate_origin(Some(origin)).is_ok(),
            "expected {origin} to be allowed"
        );
    }
}

#[test]
fn tauri_origins_allowed() {
    for origin in &["tauri://localhost", "https://tauri.localhost"] {
        assert!(
            validate_origin(Some(origin)).is_ok(),
            "expected {origin} to be allowed"
        );
    }
}

#[test]
fn foreign_origin_rejected() {
    let err = validate_origin(Some("https://evil.example.com")).unwrap_err();
    assert_eq!(err.0, 403);
}

#[test]
fn accepts_sse_when_present() {
    assert!(client_accepts_sse(Some("text/event-stream, application/json")));
}

#[test]
fn no_sse_when_only_json() {
    assert!(!client_accepts_sse(Some("application/json")));
}

#[test]
fn no_sse_when_no_accept() {
    assert!(!client_accepts_sse(None));
}

#[test]
fn json_response_shape() {
    let body = sample_body();
    let r = json_response(&body, Some("sess-123"));
    assert_eq!(r.status, 200);
    assert_eq!(header(&r, "content-type").expect("content-type"), "application/json");
    assert_eq!(header(&r, "mcp-session-id").expect("session id"), "sess-123");
    assert_eq!(r.body, to_json_string(&body));
}

#[test]
fn sse_response_shape() {
    let body = sample_body();
    let r = sse_response(&body, None);
    assert_eq!(r.status, 200);
    assert_eq!(header(&r, "content-type").expect("content-type"), "text/event-stream");
    assert_eq!(header(&r, "cache-control").expect("cache-control"), "no-cache");
    assert!(header(&r, "mcp-session-id").is_none());
    assert!(r.body.starts_with("event: message\ndata: "));
    assert!(r.body.ends_with("\n\n"));
}

#[test]
fn accepted_response_shape() {
    let r = accepted_response(Some("sess-456"));
    assert_eq!(r.status, 202);
    assert_eq!(header(&r, "mcp-session-id").expect("session id"), "sess-456");
    assert!(r.body.is_empty());
}

#[test]
fn mcp_response_delegates_correctly() {
    let body = JsonValue::Obj(vec![("ok".to_string(), JsonValue::Bool(true))]);
    let r_json = mcp_response(&body, None, false);
    assert_eq!(header(&r_json, "content-type").expect("content-type"), "application/json");

    let r_sse = mcp_response(&body, None, true);
    assert_eq!(header(&r_sse, "content-type").expect("content-type"), "text/event-stream");
}

#[test]
fn new_session_id_is_valid_uuid() {
    let id = new_session_id();
    assert!(uuid::Uuid::parse_str(&id).is_ok(), "expected valid UUID, got {id}");
}
