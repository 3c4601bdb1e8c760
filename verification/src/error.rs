//! Errors that can occur during tool search operations.

use vstd::prelude::*;
use vstd::string::*;

verus! {

pub type ToolSearchResultType<T> = core::result::Result<T, ToolSearchError>;

/// Errors that can occur during tool search operations. Failures raised by
/// outside transports are carried as their rendered messages.
#[derive(Debug, Clone)]
pub enum ToolSearchError {
    Transport(String),
    McpProtocol(String),
    Connection(String),
    UnsupportedTransport(String),
    Io(String),
    Serialization(String),
    Other(String),
}

impl ToolSearchError {
    /// The human-readable description of this error.
    pub open spec fn spec_message(self) -> Seq<char> {
        match self {
            ToolSearchError::Transport(s) => "Transport error: "@ + s@,
            ToolSearchError::McpProtocol(s) => "MCP protocol error: "@ + s@,
            ToolSearchError::Connection(s) => "Connection error: "@ + s@,
            ToolSearchError::UnsupportedTransport(s) => "Unsupported transport: "@ + s@,
            ToolSearchError::Io(s) => "IO error: "@ + s@,
            ToolSearchError::Serialization(s) => "Serialization error: "@ + s@,
            ToolSearchError::Other(s) => "Other error: "@ + s@,
        }
    }

    pub fn message(&self) -> (r: String)
        ensures
            r@ == self.spec_message(),
    {
        let mut m = String::new();
        match self {
            ToolSearchError::Transport(s) => {
                m.append("Transport error: ");
                m.append(s.as_str());
            },
            ToolSearchError::McpProtocol(s) => {
                m.append("MCP protocol error: ");
                m.append(s.as_str());
            },
            ToolSearchError::Connection(s) => {
                m.append("Connection error: ");
                m.append(s.as_str());
            },
            ToolSearchError::UnsupportedTransport(s) => {
                m.append("Unsupported transport: ");
                m.append(s.as_str());
            },
            ToolSearchError::Io(s) => {
                m.append("IO error: ");
                m.append(s.as_str());
            },
            ToolSearchError::Serialization(s) => {
                m.append("Serialization error: ");
                m.append(s.as_str());
            },
            ToolSearchError::Other(s) => {
                m.append("Other error: ");
                m.append(s.as_str());
            },
        }
        m
    }
}

} // verus!
