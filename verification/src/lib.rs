//! A local Model Context Protocol (MCP) gateway library.
//!
//! The crate models the protocol core of a gateway that drives external MCP
//! servers over stdio JSON-RPC and exposes them through one local HTTP
//! endpoint: message framing, request correlation, the client handshake,
//! connection bookkeeping, HTTP protocol negotiation, and the single-use
//! OAuth callback slot.

pub mod assoc;
pub mod callback;
pub mod client;
pub mod error;
pub mod gateway;
pub mod http;
pub mod json;
pub mod oauth;
pub mod rpc;
pub mod state;
pub mod text;
pub mod transport;

pub use callback::CallbackResult;
pub use callback::CallbackSlot;
pub use client::CallToolResult;
pub use client::ClientPhase;
pub use client::HandshakeStep;
pub use client::McpClient;
pub use client::McpConnections;
pub use client::McpToolDef;
pub use client::ServerInfo;
pub use error::AppError;
pub use gateway::Dispatch;
pub use gateway::ProxyState;
pub use gateway::GatewayStep;
pub use http::HttpResponse;
pub use json::JsonValue;
pub use oauth::AuthServerMetadata;
pub use oauth::OAuthState;
pub use oauth::OAuthStore;
pub use oauth::OAuthTokens;
pub use state::AppState;
pub use state::ConnectionState;
pub use state::DiscoveryStatus;
pub use state::EmbeddingConfig;
pub use state::EmbeddingProvider;
pub use state::McpTool;
pub use state::list_all_tools;
pub use state::list_tools;
pub use state::ServerConfig;
pub use state::ServerStatus;
pub use state::ServerTransport;
pub use text::u64_string;
pub use transport::LineAction;
pub use transport::PendingTable;
pub use transport::StdioTransport;
