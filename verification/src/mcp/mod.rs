//! MCP servers: OAuth for remote servers and the credential broker.
pub mod launch;
pub mod managed;
pub mod oauth;
pub mod session;
pub mod catalog;
pub mod connect;
pub mod credentials;
