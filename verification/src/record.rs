//! Tool records and search matches.

use vstd::prelude::*;
use vstd::string::*;

use crate::schema::SchemaValue;

verus! {

/// A tool exposed by a server: a named operation with descriptive metadata
/// and a structured input schema.
#[derive(Debug)]
pub struct ToolRecord {
    /// The name of the tool.
    pub name: String,
    /// A human-readable title for the tool.
    pub title: Option<String>,
    /// A description of what the tool does.
    pub description: Option<String>,
    /// A schema document defining the expected parameters for the tool.
    pub input_schema: SchemaValue,
    /// An optional schema document defining the structure of the tool's output.
    pub output_schema: Option<SchemaValue>,
}

/// Result of a tool search.
#[derive(Debug)]
pub struct ToolSearchMatch {
    /// Name of the server where the tool was found.
    pub server_name: String,
    /// The tool that matched the search.
    pub tool: ToolRecord,
}

impl ToolSearchMatch {
    /// Get the tool name as a string.
    pub fn tool_name(&self) -> (r: &str)
        ensures
            r@ == self.tool.name@,
    {
        self.tool.name.as_str()
    }
}

} // verus!
