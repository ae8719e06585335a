//! The failure taxonomy of the gateway core.
//!
//! Transport-level failures propagate unchanged through the client into the
//! gateway, where they are translated into JSON-RPC error envelopes; the
//! message text of each variant is pinned so that those envelopes are exact.

use vstd::prelude::*;
use vstd::string::StringExecFns;

verus! {

/// One failure of the protocol core.
#[derive(Debug, PartialEq, Eq)]
pub enum AppError {
    /// The backend process could not be started.
    SpawnFailed(String),
    /// The backend process exited or the channel was torn down.
    TransportClosed,
    /// No response arrived within the configured bound.
    Timeout,
    /// A malformed or schema-violating JSON-RPC payload.
    Protocol(String),
    /// An authorization denial or callback timeout.
    OAuth(String),
    /// A generic input/output failure.
    Io(String),
    /// A write on a transport that is no longer usable.
    Transport(String),
    /// No configured server carries the given identifier.
    ServerNotFound(String),
    /// A connect was asked for while the server is already connected.
    AlreadyConnected(String),
    /// The connect flow could not start for want of configuration.
    ConnectionFailed(String),
}

impl AppError {
    /// The descriptive text of this failure.
    pub open spec fn text(&self) -> Seq<char> {
        match self {
            AppError::SpawnFailed(s) => "Failed to spawn process: "@ + s@,
            AppError::TransportClosed => "Transport closed"@,
            AppError::Timeout => "Request timed out"@,
            AppError::Protocol(s) => "Protocol error: "@ + s@,
            AppError::OAuth(s) => "OAuth error: "@ + s@,
            AppError::Io(s) => "IO error: "@ + s@,
            AppError::Transport(s) => "Transport error: "@ + s@,
            AppError::ServerNotFound(s) => "Server not found: "@ + s@,
            AppError::AlreadyConnected(s) => "Server already connected: "@ + s@,
            AppError::ConnectionFailed(s) => "Connection failed: "@ + s@,
        }
    }

    /// Render the descriptive text.
    pub fn message(&self) -> (r: String)
        ensures
            r@ == self.text(),
    {
        match self {
            AppError::SpawnFailed(s) => {
                let mut m = String::from_str("Failed to spawn process: ");
                m.append(s.as_str());
                m
            },
            AppError::TransportClosed => String::from_str("Transport closed"),
            AppError::Timeout => String::from_str("Request timed out"),
            AppError::Protocol(s) => {
                let mut m = String::from_str("Protocol error: ");
                m.append(s.as_str());
                m
            },
            AppError::OAuth(s) => {
                let mut m = String::from_str("OAuth error: ");
                m.append(s.as_str());
                m
            },
            AppError::Io(s) => {
                let mut m = String::from_str("IO error: ");
                m.append(s.as_str());
                m
            },
            AppError::Transport(s) => {
                let mut m = String::from_str("Transport error: ");
                m.append(s.as_str());
                m
            },
            AppError::ServerNotFound(s) => {
                let mut m = String::from_str("Server not found: ");
                m.append(s.as_str());
                m
            },
            AppError::AlreadyConnected(s) => {
                let mut m = String::from_str("Server already connected: ");
                m.append(s.as_str());
                m
            },
            AppError::ConnectionFailed(s) => {
                let mut m = String::from_str("Connection failed: ");
                m.append(s.as_str());
                m
            },
        }
    }

    /// This failure is the transport-closed failure.
    pub fn is_transport_closed(&self) -> (r: bool)
        ensures
            r == (*self is TransportClosed),
    {
        match self {
            AppError::TransportClosed => true,
            _ => false,
        }
    }
}

} // verus!
