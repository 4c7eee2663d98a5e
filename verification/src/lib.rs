//! A verified core for a gateway that stands between AI agents and the MCP
//! servers they call: the JSON-RPC decisions of the proxy, the token bucket
//! that rate-limits calls, configuration defaults and dashboard access.
pub mod json;
pub mod jsonrpc;
pub mod clock;
pub mod pending;
pub mod config;
pub mod dashboard;
pub mod ids;
pub mod token_bucket;
pub mod proxy;
pub mod policy;
pub mod report;
