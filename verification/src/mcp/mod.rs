//! The MCP server's framing: what reaches the protocol layer, and what is
//! answered before it.

pub mod revisions;
pub mod transport;
pub mod transport_async;
pub mod types;
