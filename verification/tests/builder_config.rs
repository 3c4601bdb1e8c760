use toolsearch::{is_likely_regex, SearchBuilder, SearchMode, SortOrder};

#[test]
fn test_is_likely_regex() {
    assert!(is_likely_regex("^get"));
    assert!(is_likely_regex("a|b"));
    assert!(is_likely_regex("file?"));
    assert!(is_likely_regex("x*"));
    assert!(is_likely_regex("[abc]"));
    assert!(is_likely_regex("(group)"));
    assert!(!is_likely_regex("plain text"));
    assert!(!is_likely_regex("read,file"));
}

#[test]
fn test_builder_auto_detection() {
    // A regex-looking query compiles to regex mode.
    let b = SearchBuilder::new(vec![]).query("^(get|read)");
    let c = b.criteria();
    assert_eq!(c.mode, SearchMode::Regex);
    assert_eq!(c.query.as_deref(), Some("^(get|read)"));

    // A comma-separated query becomes keywords, trimmed, empties dropped.
    let b = SearchBuilder::new(vec![]).query(" read , file ,, ");
    let c = b.criteria();
    assert_eq!(c.mode, SearchMode::Keywords);
    assert_eq!(c.query, None);
    assert_eq!(c.keywords, vec!["read".to_string(), "file".to_string()]);

    // Anything else is a plain substring.
    let b = SearchBuilder::new(vec![]).query("read file");
    let c = b.criteria();
    assert_eq!(c.mode, SearchMode::Substring);
    assert_eq!(c.query.as_deref(), Some("read file"));

    // No query at all matches everything.
    let b = SearchBuilder::new(vec![]);
    let c = b.criteria();
    assert_eq!(c.mode, SearchMode::Substring);
    assert_eq!(c.query, None);
    assert!(c.keywords.is_empty());
}

#[test]
fn test_builder_explicit_keywords_override_query() {
    let b = SearchBuilder::new(vec![])
        .query("^regex-looking")
        .keywords(vec!["alpha".to_string(), "beta".to_string()]);
    assert_eq!(b.query, None);
    let c = b.criteria();
    assert_eq!(c.mode, SearchMode::Keywords);
    assert_eq!(c.keywords, vec!["alpha".to_string(), "beta".to_string()]);
}

#[test]
fn test_builder_options() {
    let b = SearchBuilder::new(vec![]);
    assert_eq!(b.options.timeout, Some(30));
    assert_eq!(b.options.sort_order, SortOrder::ServerThenTool);
    assert!(b.options.continue_on_error);
    assert_eq!(b.options.max_results, None);

    let b = b.limit(10).timeout(5).sort_by_tool();
    assert_eq!(b.options.max_results, Some(10));
    assert_eq!(b.options.timeout, Some(5));
    assert_eq!(b.options.sort_order, SortOrder::ToolThenServer);

    let b = b.sort_by_server();
    assert_eq!(b.options.sort_order, SortOrder::ServerThenTool);
}
