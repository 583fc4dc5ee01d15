//! Errors raised by the library's own logic.

use vstd::prelude::*;

verus! {

/// An error of the agent core. Errors that wrap an I/O, parse or transport
/// failure are added by the host around the library.
#[derive(Debug, Clone)]
pub enum ArrowError {
    Config(String),
    Backend(String),
    Tool(String),
    ToolPermission(String),
    AgentLoop(String),
    /// Provider and model.
    RateLimit(String, String),
    /// Provider and model.
    ContextTooLong(String, String),
    Session(String),
    Cancelled,
    InvalidRequest(String),
    Mcp(String),
    NotFound(String),
    Internal(String),
    Serialization(String),
}

} // verus!
