//! Server descriptors and their validation.

use std::collections::HashMap;
use vstd::prelude::*;
use vstd::string::*;

use crate::text::spec_starts_with;
use crate::text::str_starts_with;

verus! {

/// Transport configuration for connecting to a server.
#[derive(Debug, Clone)]
pub enum TransportConfig {
    /// Standard I/O transport (spawns a process).
    Stdio { command: String, args: Vec<String>, env: HashMap<String, String> },
    /// SSE (Server-Sent Events) transport.
    Sse { url: String, headers: HashMap<String, String> },
}

/// Configuration for a server.
#[derive(Debug, Clone)]
pub struct ServerConfig {
    /// Name identifier for the server.
    pub name: String,
    /// Transport configuration.
    pub transport: TransportConfig,
}

impl ServerConfig {
    /// A descriptor is valid when its name is non-empty and its transport
    /// carries a non-empty command, or a non-empty URL with a recognized scheme.
    pub open spec fn spec_valid(self) -> bool {
        self.name@.len() > 0 && match self.transport {
            TransportConfig::Stdio { command, .. } => command@.len() > 0,
            TransportConfig::Sse { url, .. } => url@.len() > 0 && (spec_starts_with(
                url@,
                "http://"@,
            ) || spec_starts_with(url@, "https://"@)),
        }
    }

    /// The message reported for an invalid descriptor.
    pub open spec fn spec_validation_message(self) -> Seq<char> {
        if self.name@.len() == 0 {
            "Server name cannot be empty"@
        } else {
            match self.transport {
                TransportConfig::Stdio { command, .. } => "Command cannot be empty for server: "@
                    + self.name@,
                TransportConfig::Sse { url, .. } => {
                    if url@.len() == 0 {
                        "URL cannot be empty for server: "@ + self.name@
                    } else {
                        "Invalid URL format for server "@ + self.name@ + ": "@ + url@
                    }
                },
            }
        }
    }

    /// Validate the server configuration.
    pub fn validate(&self) -> (r: Result<(), String>)
        ensures
            r is Ok <==> self.spec_valid(),
            r is Err ==> r->Err_0@ == self.spec_validation_message(),
    {
        if self.name.as_str().is_empty() {
            let mut m = String::new();
            m.append("Server name cannot be empty");
            return Err(m);
        }
        match &self.transport {
            TransportConfig::Stdio { command, .. } => {
                if command.as_str().is_empty() {
                    let mut m = String::new();
                    m.append("Command cannot be empty for server: ");
                    m.append(self.name.as_str());
                    return Err(m);
                }
            },
            TransportConfig::Sse { url, .. } => {
                if url.as_str().is_empty() {
                    let mut m = String::new();
                    m.append("URL cannot be empty for server: ");
                    m.append(self.name.as_str());
                    return Err(m);
                }
                if !str_starts_with(url.as_str(), "http://") && !str_starts_with(
                    url.as_str(),
                    "https://",
                ) {
                    let mut m = String::new();
                    m.append("Invalid URL format for server ");
                    m.append(self.name.as_str());
                    m.append(": ");
                    m.append(url.as_str());
                    return Err(m);
                }
            },
        }
        Ok(())
    }
}

} // verus!
