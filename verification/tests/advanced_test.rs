use std::collections::HashMap;
use toolsearch::{
    SchemaValue, SearchCriteria, SearchFields, SearchOptions, ServerConfig, SortOrder, ToolRecord,
    ToolSearchMatch, TransportConfig,
};

#[test]
fn test_server_config_validation() {
    // Valid config
    let valid_config = ServerConfig {
        name: "test_server".to_string(),
        transport: TransportConfig::Stdio {
            command: "echo".to_string(),
            args: vec![],
            env: HashMap::new(),
        },
    };
    assert!(valid_config.validate().is_ok());

    // Invalid: empty name
    let invalid_config = ServerConfig {
        name: "".to_string(),
        transport: TransportConfig::Stdio {
            command: "echo".to_string(),
            args: vec![],
            env: HashMap::new(),
        },
    };
    assert!(invalid_config.validate().is_err());

    // Invalid: empty command
    let invalid_config2 = ServerConfig {
        name: "test".to_string(),
        transport: TransportConfig::Stdio {
            command: "".to_string(),
            args: vec![],
            env: HashMap::new(),
        },
    };
    assert!(invalid_config2.validate().is_err());

    // Invalid: bad SSE URL
    let invalid_config3 = ServerConfig {
        name: "test".to_string(),
        transport: TransportConfig::Sse {
            url: "not-a-url".to_string(),
            headers: HashMap::new(),
        },
    };
    assert!(invalid_config3.validate().is_err());

    // Valid: good SSE URL
    let valid_config2 = ServerConfig {
        name: "test".to_string(),
        transport: TransportConfig::Sse {
            url: "https://example.com/sse".to_string(),
            headers: HashMap::new(),
        },
    };
    assert!(valid_config2.validate().is_ok());
}

#[test]
fn test_validation_messages() {
    let unnamed = ServerConfig {
        name: "".to_string(),
        transport: TransportConfig::Stdio {
            command: "echo".to_string(),
            args: vec![],
            env: HashMap::new(),
        },
    };
    assert_eq!(
        unnamed.validate().unwrap_err(),
        "Server name cannot be empty"
    );

    let no_command = ServerConfig {
        name: "alpha".to_string(),
        transport: TransportConfig::Stdio {
            command: "".to_string(),
            args: vec![],
            env: HashMap::new(),
        },
    };
    assert_eq!(
        no_command.validate().unwrap_err(),
        "Command cannot be empty for server: alpha"
    );

    let no_url = ServerConfig {
        name: "beta".to_string(),
        transport: TransportConfig::Sse {
            url: "".to_string(),
            headers: HashMap::new(),
        },
    };
    assert_eq!(
        no_url.validate().unwrap_err(),
        "URL cannot be empty for server: beta"
    );

    let bad_url = ServerConfig {
        name: "gamma".to_string(),
        transport: TransportConfig::Sse {
            url: "ftp://example.com".to_string(),
            headers: HashMap::new(),
        },
    };
    assert_eq!(
        bad_url.validate().unwrap_err(),
        "Invalid URL format for server gamma: ftp://example.com"
    );
}

#[test]
fn test_search_options_default() {
    let options = SearchOptions::default();
    assert_eq!(options.timeout, Some(30));
    assert_eq!(options.sort_order, SortOrder::ServerThenTool);
    assert!(options.continue_on_error);
    assert_eq!(options.max_results, None);
}

#[test]
fn test_search_criteria_match_all() {
    let criteria = SearchCriteria::match_all();

    let tool = ToolRecord {
        name: "any_tool".to_string(),
        title: None,
        description: Some("Any description".to_string()),
        input_schema: SchemaValue::Object(vec![]),
        output_schema: None,
    };

    // Should match all tools
    assert!(criteria.matches(&tool));
}

#[test]
fn test_search_fields_default() {
    let fields = SearchFields::default();
    assert!(fields.name);
    assert!(fields.title);
    assert!(fields.description);
    assert!(!fields.input_schema);
}

#[test]
fn test_tool_search_match_tool_name() {
    let tool = ToolRecord {
        name: "test_tool".to_string(),
        title: None,
        description: None,
        input_schema: SchemaValue::Object(vec![]),
        output_schema: None,
    };

    let match_result = ToolSearchMatch {
        server_name: "test_server".to_string(),
        tool,
    };

    assert_eq!(match_result.tool_name(), "test_tool");
}
