use toolsearch::{SchemaValue, SearchCriteria, ToolRecord};

#[test]
fn test_search_criteria() {
    let tool = ToolRecord {
        name: "test_tool".to_string(),
        title: None,
        description: Some("A test tool for testing".to_string()),
        input_schema: SchemaValue::Object(vec![]),
        output_schema: None,
    };

    // Test query matching
    let criteria = SearchCriteria::with_query("test".to_string());
    assert!(criteria.matches(&tool));

    let criteria = SearchCriteria::with_query("nonexistent".to_string());
    assert!(!criteria.matches(&tool));

    // Test exact name matching
    let criteria = SearchCriteria::with_name("test_tool".to_string());
    assert!(criteria.matches(&tool));

    let criteria = SearchCriteria::with_name("other_tool".to_string());
    assert!(!criteria.matches(&tool));

    // Test description matching
    let criteria = SearchCriteria::with_query("testing".to_string());
    assert!(criteria.matches(&tool));
}
