use toolsearch::{extract_schema_text, SchemaValue, SearchCriteria, SearchFields, SearchMode, ToolRecord};

fn tool(name: &str, description: Option<&str>) -> ToolRecord {
    ToolRecord {
        name: name.to_string(),
        title: None,
        description: description.map(|d| d.to_string()),
        input_schema: SchemaValue::Object(vec![]),
        output_schema: None,
    }
}

#[test]
fn test_search_criteria_matches() {
    let tool = ToolRecord {
        name: "test_tool".to_string(),
        title: None,
        description: Some("A test tool for testing".to_string()),
        input_schema: SchemaValue::Object(vec![]),
        output_schema: None,
    };

    // Test query matching
    let criteria = SearchCriteria::with_query("test".to_string());
    assert!(criteria.matches(&tool));

    let criteria = SearchCriteria::with_query("nonexistent".to_string());
    assert!(!criteria.matches(&tool));

    // Test exact name matching
    let criteria = SearchCriteria::with_name("test_tool".to_string());
    assert!(criteria.matches(&tool));

    let criteria = SearchCriteria::with_name("other_tool".to_string());
    assert!(!criteria.matches(&tool));

    // Test regex matching
    let criteria = SearchCriteria::with_regex(r"test.*tool".to_string());
    assert!(criteria.matches(&tool));

    // Test keyword matching
    let criteria = SearchCriteria::with_keywords(vec!["test".to_string(), "tool".to_string()]);
    assert!(criteria.matches(&tool));

    let criteria =
        SearchCriteria::with_keywords(vec!["test".to_string(), "nonexistent".to_string()]);
    assert!(!criteria.matches(&tool));

    // Test word boundary matching
    let criteria = SearchCriteria::with_query("test".to_string()).with_mode(SearchMode::WordBoundary);
    assert!(criteria.matches(&tool));
}

#[test]
fn test_substring_case_folding() {
    let t = tool("test_tool", None);

    // Case-insensitive by default: an uppercase query still matches.
    let criteria = SearchCriteria::with_query("TEST".to_string());
    assert!(criteria.matches(&t));

    // Case-sensitive: it does not.
    let criteria = SearchCriteria::with_query("TEST".to_string()).case_sensitive(true);
    assert!(!criteria.matches(&t));

    // An empty query matches everything.
    let criteria = SearchCriteria::with_query("".to_string());
    assert!(criteria.matches(&t));
}

#[test]
fn test_keywords_order_and_conjunction() {
    let t = tool("read_file", Some("Reads a file from disk"));

    let c1 = SearchCriteria::with_keywords(vec!["file".to_string(), "read".to_string()]);
    let c2 = SearchCriteria::with_keywords(vec!["read".to_string(), "file".to_string()]);
    assert_eq!(c1.matches(&t), c2.matches(&t));
    assert!(c1.matches(&t));

    // All keywords must be present in a single fragment.
    let c3 = SearchCriteria::with_keywords(vec!["read".to_string(), "missing".to_string()]);
    assert!(!c3.matches(&t));

    // An empty keyword list matches everything.
    let c4 = SearchCriteria::with_keywords(vec![]);
    assert!(c4.matches(&t));
}

#[test]
fn test_word_boundary_whole_words() {
    let c = SearchCriteria::with_query("read".to_string()).with_mode(SearchMode::WordBoundary);
    assert!(c.matches(&tool("read", None)));
    assert!(c.matches(&tool("read file", None)));
    assert!(!c.matches(&tool("bread", None)));
    assert!(!c.matches(&tool("reader", None)));
    // The underscore is a word character, so no boundary follows "read" here.
    assert!(!c.matches(&tool("read_file", None)));
}

#[test]
fn test_word_boundary_escapes_metacharacters() {
    let c = SearchCriteria::with_query("read.file".to_string()).with_mode(SearchMode::WordBoundary);
    // The dot is escaped, so it only matches a literal dot.
    assert!(c.matches(&tool("read.file", None)));
    assert!(!c.matches(&tool("readxfile", None)));
}

#[test]
fn test_exact_name_case_sensitivity() {
    let t = tool("test", None);

    let insensitive = SearchCriteria::with_name("Test".to_string());
    assert!(insensitive.matches(&t));

    let sensitive = SearchCriteria::with_name("Test".to_string()).case_sensitive(true);
    assert!(!sensitive.matches(&t));
}

#[test]
fn test_invalid_regex_never_matches() {
    let c = SearchCriteria::with_regex("(unclosed".to_string());
    assert!(!c.matches(&tool("unclosed", None)));
    assert!(!c.matches(&tool("anything", None)));
}

#[test]
fn test_min_description_length() {
    let mut c = SearchCriteria::match_all();
    c.min_description_length = Some(10);

    assert!(!c.matches(&tool("a", None)));
    assert!(!c.matches(&tool("a", Some("short"))));
    assert!(c.matches(&tool("a", Some("long enough text"))));
}

#[test]
fn test_field_mask() {
    let t = ToolRecord {
        name: "alpha".to_string(),
        title: Some("Beta title".to_string()),
        description: Some("gamma description".to_string()),
        input_schema: SchemaValue::Object(vec![]),
        output_schema: None,
    };

    // Match in the title only; disabling the title field turns it off.
    let c = SearchCriteria::with_query("beta".to_string());
    assert!(c.matches(&t));
    let c = c.with_fields(SearchFields {
        name: true,
        title: false,
        description: true,
        input_schema: false,
    });
    assert!(!c.matches(&t));
}

#[test]
fn test_schema_text_extraction() {
    let schema = SchemaValue::Object(vec![
        (
            "properties".to_string(),
            SchemaValue::Object(vec![("path".to_string(), SchemaValue::Object(vec![]))]),
        ),
        ("description".to_string(), SchemaValue::Text("x".to_string())),
    ]);
    let text = extract_schema_text(&schema);
    assert!(text.contains("path"));
    assert!(text.contains("x"));
    // Key names, the description, nested object text, then string values.
    assert_eq!(text, "properties description x path x ");
}

#[test]
fn test_schema_search() {
    let t = ToolRecord {
        name: "opaque".to_string(),
        title: None,
        description: None,
        input_schema: SchemaValue::Object(vec![(
            "properties".to_string(),
            SchemaValue::Object(vec![("filepath".to_string(), SchemaValue::Object(vec![]))]),
        )]),
        output_schema: None,
    };

    // Schema text is not searched by default.
    let c = SearchCriteria::with_query("filepath".to_string());
    assert!(!c.matches(&t));

    // Enabled, the schema's property names are searched.
    let c = c.with_fields(SearchFields {
        name: true,
        title: true,
        description: true,
        input_schema: true,
    });
    assert!(c.matches(&t));
}
