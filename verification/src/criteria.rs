//! Search criteria: the mode-selectable text-matching predicate over tool
//! records.

use vstd::prelude::*;
use vstd::string::*;

use crate::pattern::escaped_of;
use crate::pattern::pattern_found;
use crate::pattern::pattern_valid;
use crate::pattern::regex_compile;
use crate::pattern::regex_escape;
use crate::pattern::regex_find;
use crate::record::ToolRecord;
use crate::schema::extract_schema_text;
use crate::schema::schema_text;
use crate::text::fold_ascii;
use crate::text::lower_of;
use crate::text::lowercase;
use crate::text::spec_contains;
use crate::text::str_contains;
use crate::text::str_eq;
use crate::text::str_eq_ignore_ascii_case;

verus! {

/// Search mode for pattern matching.
#[derive(Debug, Clone, Copy, PartialEq, Eq, Structural)]
pub enum SearchMode {
    /// Simple substring matching (case-insensitive by default).
    Substring,
    /// Regular expression pattern matching.
    Regex,
    /// Keyword matching (all keywords must be present).
    Keywords,
    /// Word boundary matching (whole words only).
    WordBoundary,
}

/// Fields to search in.
#[derive(Debug, Clone, Copy, PartialEq, Eq, Structural)]
pub struct SearchFields {
    /// Search in tool name.
    pub name: bool,
    /// Search in tool title.
    pub title: bool,
    /// Search in tool description.
    pub description: bool,
    /// Search in input schema (property names and descriptions).
    pub input_schema: bool,
}

impl Default for SearchFields {
    /// Name, title and description enabled; schema text disabled.
    fn default() -> (r: Self)
        ensures
            r == (SearchFields { name: true, title: true, description: true, input_schema: false }),
    {
        SearchFields { name: true, title: true, description: true, input_schema: false }
    }
}

/// A text as it takes part in matching: itself when the search is case
/// sensitive, its lowercase form otherwise.
pub open spec fn spec_fold(case_sensitive: bool, s: Seq<char>) -> Seq<char> {
    if case_sensitive {
        s
    } else {
        lower_of(s)
    }
}

/// The pattern that word-boundary mode builds: the escaped query flanked by
/// word-boundary assertions.
pub open spec fn wb_pattern(q: Seq<char>) -> Seq<char> {
    "\\b"@ + escaped_of(q) + "\\b"@
}

/// Search criteria for filtering tools.
#[derive(Debug, Clone)]
pub struct SearchCriteria {
    /// Search query string.
    pub query: Option<String>,
    /// Exact name match.
    pub name: Option<String>,
    /// Search mode.
    pub mode: SearchMode,
    /// Fields to search in.
    pub fields: SearchFields,
    /// Case sensitive search.
    pub case_sensitive: bool,
    /// Minimum description length, in characters.
    pub min_description_length: Option<usize>,
    /// Keywords for keyword matching mode.
    pub keywords: Vec<String>,
}

impl SearchCriteria {
    /// Substring and word-boundary matching need a query; a criteria without
    /// one may carry keywords only in the modes that read them.
    pub open spec fn wf(self) -> bool {
        (self.mode == SearchMode::Substring || self.mode == SearchMode::WordBoundary)
            && self.query is None ==> self.keywords@.len() == 0
    }

    /// Whether one text fragment satisfies the mode-specific matching.
    pub open spec fn spec_text_matches(self, text: Seq<char>) -> bool {
        let folded = spec_fold(self.case_sensitive, text);
        match self.mode {
            SearchMode::Substring => match self.query {
                Some(q) => spec_contains(folded, spec_fold(self.case_sensitive, q@)),
                None => false,
            },
            SearchMode::Regex => match self.query {
                Some(q) => pattern_valid(q@) && pattern_found(q@, text),
                None => false,
            },
            SearchMode::Keywords => forall|i: int|
                0 <= i < self.keywords@.len() ==> spec_contains(
                    folded,
                    spec_fold(self.case_sensitive, (#[trigger] self.keywords@[i])@),
                ),
            SearchMode::WordBoundary => match self.query {
                Some(q) => {
                    let fq = spec_fold(self.case_sensitive, q@);
                    if pattern_valid(wb_pattern(fq)) {
                        pattern_found(wb_pattern(fq), folded)
                    } else {
                        spec_contains(folded, fq)
                    }
                },
                None => false,
            },
        }
    }

    /// Whether the tool's description passes the minimum-length filter.
    pub open spec fn min_desc_ok(self, t: ToolRecord) -> bool {
        match self.min_description_length {
            Some(m) => match t.description {
                Some(d) => d@.len() >= m,
                None => false,
            },
            None => true,
        }
    }

    /// Whether a tool matches this criteria: an exact-name target is decisive
    /// when set; then the description-length filter; a criteria with neither
    /// query nor keywords matches everything; otherwise some enabled fragment
    /// must satisfy the mode-specific matching.
    pub open spec fn spec_matches(self, t: ToolRecord) -> bool {
        match self.name {
            Some(n) => {
                if self.case_sensitive {
                    t.name@ == n@
                } else {
                    fold_ascii(t.name@) == fold_ascii(n@)
                }
            },
            None => {
                if !self.min_desc_ok(t) {
                    false
                } else if self.query is None && self.keywords@.len() == 0 {
                    true
                } else {
                    ||| self.fields.name && self.spec_text_matches(t.name@)
                    ||| self.fields.title && match t.title {
                        Some(ti) => self.spec_text_matches(ti@),
                        None => false,
                    }
                    ||| self.fields.description && match t.description {
                        Some(d) => self.spec_text_matches(d@),
                        None => false,
                    }
                    ||| self.fields.input_schema && schema_text(t.input_schema).len() > 0
                        && self.spec_text_matches(schema_text(t.input_schema))
                }
            },
        }
    }

    /// Create a new search criteria with a query string.
    pub fn with_query(query: String) -> (r: Self)
        ensures
            r == (SearchCriteria {
                query: Some(query),
                name: None,
                mode: SearchMode::Substring,
                fields: SearchFields { name: true, title: true, description: true, input_schema: false },
                case_sensitive: false,
                min_description_length: None,
                keywords: r.keywords,
            }),
            r.keywords@.len() == 0,
            r.wf(),
    {
        SearchCriteria {
            query: Some(query),
            name: None,
            mode: SearchMode::Substring,
            fields: SearchFields::default(),
            case_sensitive: false,
            min_description_length: None,
            keywords: Vec::new(),
        }
    }

    /// Create a search criteria for exact name match.
    pub fn with_name(name: String) -> (r: Self)
        ensures
            r == (SearchCriteria {
                query: None,
                name: Some(name),
                mode: SearchMode::Substring,
                fields: SearchFields { name: true, title: true, description: true, input_schema: false },
                case_sensitive: false,
                min_description_length: None,
                keywords: r.keywords,
            }),
            r.keywords@.len() == 0,
            r.wf(),
    {
        SearchCriteria {
            query: None,
            name: Some(name),
            mode: SearchMode::Substring,
            fields: SearchFields::default(),
            case_sensitive: false,
            min_description_length: None,
            keywords: Vec::new(),
        }
    }

    /// Create a search criteria with a regex pattern.
    pub fn with_regex(pattern: String) -> (r: Self)
        ensures
            r == (SearchCriteria {
                query: Some(pattern),
                name: None,
                mode: SearchMode::Regex,
                fields: SearchFields { name: true, title: true, description: true, input_schema: false },
                case_sensitive: false,
                min_description_length: None,
                keywords: r.keywords,
            }),
            r.keywords@.len() == 0,
            r.wf(),
    {
        SearchCriteria {
            query: Some(pattern),
            name: None,
            mode: SearchMode::Regex,
            fields: SearchFields::default(),
            case_sensitive: false,
            min_description_length: None,
            keywords: Vec::new(),
        }
    }

    /// Create a search criteria with keywords (all must match).
    pub fn with_keywords(keywords: Vec<String>) -> (r: Self)
        ensures
            r == (SearchCriteria {
                query: None,
                name: None,
                mode: SearchMode::Keywords,
                fields: SearchFields { name: true, title: true, description: true, input_schema: false },
                case_sensitive: false,
                min_description_length: None,
                keywords: keywords,
            }),
            r.wf(),
    {
        SearchCriteria {
            query: None,
            name: None,
            mode: SearchMode::Keywords,
            fields: SearchFields::default(),
            case_sensitive: false,
            min_description_length: None,
            keywords,
        }
    }

    /// Create an empty search criteria that matches all tools.
    pub fn match_all() -> (r: Self)
        ensures
            r == (SearchCriteria {
                query: None,
                name: None,
                mode: SearchMode::Substring,
                fields: SearchFields { name: true, title: true, description: true, input_schema: false },
                case_sensitive: false,
                min_description_length: None,
                keywords: r.keywords,
            }),
            r.keywords@.len() == 0,
            r.wf(),
    {
        SearchCriteria {
            query: None,
            name: None,
            mode: SearchMode::Substring,
            fields: SearchFields::default(),
            case_sensitive: false,
            min_description_length: None,
            keywords: Vec::new(),
        }
    }

    /// Set search mode.
    pub fn with_mode(self, mode: SearchMode) -> (r: Self)
        ensures
            r == (SearchCriteria { mode, ..self }),
    {
        SearchCriteria { mode, ..self }
    }

    /// Set fields to search in.
    pub fn with_fields(self, fields: SearchFields) -> (r: Self)
        ensures
            r == (SearchCriteria { fields, ..self }),
    {
        SearchCriteria { fields, ..self }
    }

    /// Set case sensitivity.
    pub fn case_sensitive(self, sensitive: bool) -> (r: Self)
        ensures
            r == (SearchCriteria { case_sensitive: sensitive, ..self }),
    {
        SearchCriteria { case_sensitive: sensitive, ..self }
    }

    /// Check if text matches the query based on search mode.
    #[verifier::loop_isolation(false)]
    fn text_matches(&self, text: &str) -> (r: bool)
        requires
            (self.mode == SearchMode::Substring || self.mode == SearchMode::WordBoundary)
                ==> self.query is Some,
        ensures
            r == self.spec_text_matches(text@),
    {
        let search_text: String = if self.case_sensitive {
            text.to_owned()
        } else {
            lowercase(text)
        };
        match self.mode {
            SearchMode::Substring => {
                let q = self.query.as_ref().unwrap();
                if self.case_sensitive {
                    str_contains(search_text.as_str(), q.as_str())
                } else {
                    let fq = lowercase(q.as_str());
                    str_contains(search_text.as_str(), fq.as_str())
                }
            },
            SearchMode::Regex => match &self.query {
                Some(q) => match regex_compile(q.as_str()) {
                    Some(c) => regex_find(&c, text),
                    None => false,
                },
                None => false,
            },
            SearchMode::Keywords => {
                let n = self.keywords.len();
                let mut i: usize = 0;
                while i < n
                    invariant
                        0 <= i <= n,
                        n == self.keywords@.len(),
                        search_text@ == spec_fold(self.case_sensitive, text@),
                        forall|j: int|
                            0 <= j < i ==> spec_contains(
                                spec_fold(self.case_sensitive, text@),
                                spec_fold(self.case_sensitive, (#[trigger] self.keywords@[j])@),
                            ),
                    decreases n - i,
                {
                    let kw = &self.keywords[i];
                    let found = if self.case_sensitive {
                        str_contains(search_text.as_str(), kw.as_str())
                    } else {
                        let fk = lowercase(kw.as_str());
                        str_contains(search_text.as_str(), fk.as_str())
                    };
                    if !found {
                        proof {
                            assert(!spec_contains(
                                spec_fold(self.case_sensitive, text@),
                                spec_fold(self.case_sensitive, self.keywords@[i as int]@),
                            ));
                        }
                        return false;
                    }
                    i += 1;
                }
                true
            },
            SearchMode::WordBoundary => {
                let q = self.query.as_ref().unwrap();
                let fq: String = if self.case_sensitive {
                    q.clone()
                } else {
                    lowercase(q.as_str())
                };
                let mut pat = String::new();
                pat.append("\\b");
                let esc = regex_escape(fq.as_str());
                pat.append(esc.as_str());
                pat.append("\\b");
                proof {
                    assert(pat@ == wb_pattern(spec_fold(self.case_sensitive, q@)));
                }
                match regex_compile(pat.as_str()) {
                    Some(c) => regex_find(&c, search_text.as_str()),
                    None => str_contains(search_text.as_str(), fq.as_str()),
                }
            },
        }
    }

    /// Check if a tool matches the search criteria.
    pub fn matches(&self, tool: &ToolRecord) -> (r: bool)
        requires
            self.wf(),
        ensures
            r == self.spec_matches(*tool),
    {
        match &self.name {
            Some(n) => {
                return if self.case_sensitive {
                    str_eq(tool.name.as_str(), n.as_str())
                } else {
                    str_eq_ignore_ascii_case(tool.name.as_str(), n.as_str())
                };
            },
            None => {},
        }
        match self.min_description_length {
            Some(min_len) => {
                match &tool.description {
                    Some(d) => {
                        if d.as_str().unicode_len() < min_len {
                            return false;
                        }
                    },
                    None => {
                        return false;
                    },
                }
            },
            None => {},
        }
        let has_query = match &self.query {
            Some(_) => true,
            None => false,
        };
        if !has_query && self.keywords.len() == 0 {
            return true;
        }
        if self.fields.name {
            if self.text_matches(tool.name.as_str()) {
                return true;
            }
        }
        if self.fields.title {
            match &tool.title {
                Some(ti) => {
                    if self.text_matches(ti.as_str()) {
                        return true;
                    }
                },
                None => {},
            }
        }
        if self.fields.description {
            match &tool.description {
                Some(d) => {
                    if self.text_matches(d.as_str()) {
                        return true;
                    }
                },
                None => {},
            }
        }
        if self.fields.input_schema {
            let st = extract_schema_text(&tool.input_schema);
            if !st.as_str().is_empty() {
                if self.text_matches(st.as_str()) {
                    return true;
                }
            }
        }
        false
    }
}

} // verus!
