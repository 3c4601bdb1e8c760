//! Search for callable tools exposed by configured remote servers.
//!
//! The library holds the search core: server-descriptor validation, a
//! mode-selectable text-matching predicate over tool records (substring,
//! regular expression, keyword and word-boundary matching), recursive
//! extraction of searchable text from a nested input schema, and the
//! aggregation pipeline that filters, sorts and truncates the tools
//! returned by the configured servers. Connecting to servers and listing
//! their tools is left to the surrounding application, which hands the
//! per-server outcomes to [`search::search_from_results`].

pub mod builder;
pub mod config;
pub mod criteria;
pub mod error;
pub mod laws;
pub mod options;
pub mod pattern;
pub mod record;
pub mod schema;
pub mod search;
pub mod text;

pub use builder::is_likely_regex;
pub use builder::SearchBuilder;
pub use config::ServerConfig;
pub use config::TransportConfig;
pub use criteria::SearchCriteria;
pub use criteria::SearchFields;
pub use criteria::SearchMode;
pub use error::ToolSearchError;
pub use error::ToolSearchResultType;
pub use options::SearchOptions;
pub use options::SortOrder;
pub use record::ToolRecord;
pub use record::ToolSearchMatch;
pub use schema::extract_schema_text;
pub use schema::SchemaValue;

pub use text::str_contains;
pub use text::str_eq;
pub use text::str_eq_ignore_ascii_case;
pub use text::str_le;
pub use text::str_starts_with;
