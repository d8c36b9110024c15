//! Verified core of the MYAPP API client and MCP server: configuration
//! layering, the OAuth 2.1 + PKCE authorization state machine, secret
//! redaction, and the request/response rules of the API client.

pub mod text;
pub mod api;
pub mod textmap;
pub mod secret;
pub mod env;
pub mod json;
pub mod error;
pub mod store;
pub mod pkce;
pub mod encoding;
pub mod oauth;
pub mod config;
pub mod mcp_config;
pub mod server;
pub mod redact;
pub mod models;
pub mod client;
pub mod tools;
