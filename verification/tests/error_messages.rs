//! The descriptive text of every failure variant.

use mcp_gateway::AppError;

#[test]
fn every_variant_renders_its_exact_text() {
    assert_eq!(
        AppError::SpawnFailed("no such file".to_string()).message(),
        "Failed to spawn process: no such file"
    );
    assert_eq!(AppError::TransportClosed.message(), "Transport closed");
    assert_eq!(AppError::Timeout.message(), "Request timed out");
    assert_eq!(
        AppError::Protocol("bad envelope".to_string()).message(),
        "Protocol error: bad envelope"
    );
    assert_eq!(
        AppError::OAuth("denied".to_string()).message(),
        "OAuth error: denied"
    );
    assert_eq!(AppError::Io("pipe".to_string()).message(), "IO error: pipe");
    assert_eq!(
        AppError::Transport("HTTP transport not yet implemented".to_string()).message(),
        "Transport error: HTTP transport not yet implemented"
    );
    assert_eq!(
        AppError::ServerNotFound("srv".to_string()).message(),
        "Server not found: srv"
    );
    assert_eq!(
        AppError::AlreadyConnected("srv".to_string()).message(),
        "Server already connected: srv"
    );
    assert_eq!(
        AppError::ConnectionFailed("No command specified".to_string()).message(),
        "Connection failed: No command specified"
    );
}
