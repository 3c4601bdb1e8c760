//! Options for search operations.

use vstd::prelude::*;

verus! {

/// Sort order for search results.
#[derive(Debug, Clone, Copy, PartialEq, Eq, Structural)]
pub enum SortOrder {
    /// Sort by server name, then tool name.
    ServerThenTool,
    /// Sort by tool name, then server name.
    ToolThenServer,
    /// No sorting (keep original order).
    Unsorted,
}

/// Options for search operations.
#[derive(Debug, Clone)]
pub struct SearchOptions {
    /// Timeout in seconds for server connections and queries.
    pub timeout: Option<u64>,
    /// Sort order for results.
    pub sort_order: SortOrder,
    /// Continue searching other servers if one fails.
    pub continue_on_error: bool,
    /// Maximum number of results to return.
    pub max_results: Option<usize>,
}

impl Default for SearchOptions {
    /// Thirty-second timeout, results ordered by server then tool,
    /// failing servers tolerated, no result cap.
    fn default() -> (r: Self)
        ensures
            r.timeout == Some(30u64),
            r.sort_order == SortOrder::ServerThenTool,
            r.continue_on_error,
            r.max_results is None,
    {
        SearchOptions {
            timeout: Some(30),
            sort_order: SortOrder::ServerThenTool,
            continue_on_error: true,
            max_results: None,
        }
    }
}

} // verus!
