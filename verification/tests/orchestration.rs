use std::collections::HashMap;
use toolsearch::search::{plan_queries, search_from_results, ServerQueryResult};
use toolsearch::{
    SchemaValue, SearchCriteria, SearchOptions, ServerConfig, SortOrder, ToolRecord,
    ToolSearchError, TransportConfig,
};

fn named_tool(name: &str) -> ToolRecord {
    ToolRecord {
        name: name.to_string(),
        title: None,
        description: None,
        input_schema: SchemaValue::Object(vec![]),
        output_schema: None,
    }
}

fn ok_result(server: &str, tools: Vec<ToolRecord>) -> ServerQueryResult {
    ServerQueryResult {
        server_name: server.to_string(),
        outcome: Ok(tools),
    }
}

fn err_result(server: &str, error: ToolSearchError) -> ServerQueryResult {
    ServerQueryResult {
        server_name: server.to_string(),
        outcome: Err(error),
    }
}

#[test]
fn test_regex_search_across_servers() {
    let results = vec![
        ok_result("A", vec![named_tool("get_file"), named_tool("set_file")]),
        ok_result("B", vec![named_tool("read_data")]),
    ];
    let criteria = SearchCriteria::with_regex("^(get|read)".to_string());
    let options = SearchOptions::default();

    let outcome = search_from_results(results, &criteria, &options).unwrap();
    assert_eq!(outcome.failures.len(), 0);
    assert_eq!(outcome.matches.len(), 2);
    assert_eq!(outcome.matches[0].server_name, "A");
    assert_eq!(outcome.matches[0].tool_name(), "get_file");
    assert_eq!(outcome.matches[1].server_name, "B");
    assert_eq!(outcome.matches[1].tool_name(), "read_data");
}

#[test]
fn test_failed_server_tolerated() {
    let results = vec![
        ok_result("A", vec![named_tool("get_file")]),
        err_result(
            "B",
            ToolSearchError::Connection("Connection timeout after 30s for server: B".to_string()),
        ),
    ];
    let criteria = SearchCriteria::match_all();
    let mut options = SearchOptions::default();
    options.continue_on_error = true;

    let outcome = search_from_results(results, &criteria, &options).unwrap();
    assert_eq!(outcome.matches.len(), 1);
    assert_eq!(outcome.matches[0].server_name, "A");
    assert_eq!(outcome.failures.len(), 1);
    assert_eq!(outcome.failures[0].server_name, "B");
    assert!(matches!(
        outcome.failures[0].error,
        ToolSearchError::Connection(_)
    ));
}

#[test]
fn test_failed_server_aborts_without_tolerance() {
    let results = vec![
        ok_result("A", vec![named_tool("get_file")]),
        err_result("B", ToolSearchError::Connection("timed out".to_string())),
    ];
    let criteria = SearchCriteria::match_all();
    let mut options = SearchOptions::default();
    options.continue_on_error = false;

    let r = search_from_results(results, &criteria, &options);
    match r {
        Err(ToolSearchError::Connection(m)) => assert_eq!(m, "timed out"),
        _ => panic!("expected the first failure to abort the call"),
    }
}

#[test]
fn test_max_results_after_sort() {
    // Five tools across three servers, deliberately out of order.
    let results = vec![
        ok_result("delta", vec![named_tool("zeta"), named_tool("alpha")]),
        ok_result("beta", vec![named_tool("omega")]),
        ok_result("alpha", vec![named_tool("theta"), named_tool("beta")]),
    ];
    let criteria = SearchCriteria::match_all();
    let mut options = SearchOptions::default();
    options.sort_order = SortOrder::ServerThenTool;
    options.max_results = Some(1);

    // The cap is applied after the full sort: the head of the sorted list.
    let outcome = search_from_results(results, &criteria, &options).unwrap();
    assert_eq!(outcome.matches.len(), 1);
    assert_eq!(outcome.matches[0].server_name, "alpha");
    assert_eq!(outcome.matches[0].tool_name(), "beta");
}

#[test]
fn test_sort_orders() {
    let results = vec![
        ok_result("srv2", vec![named_tool("aaa")]),
        ok_result("srv1", vec![named_tool("bbb"), named_tool("aaa")]),
    ];
    let criteria = SearchCriteria::match_all();

    let mut options = SearchOptions::default();
    options.sort_order = SortOrder::ServerThenTool;
    let outcome = search_from_results(
        vec![
            ok_result("srv2", vec![named_tool("aaa")]),
            ok_result("srv1", vec![named_tool("bbb"), named_tool("aaa")]),
        ],
        &criteria,
        &options,
    )
    .unwrap();
    let got: Vec<(String, String)> = outcome
        .matches
        .iter()
        .map(|m| (m.server_name.clone(), m.tool_name().to_string()))
        .collect();
    assert_eq!(
        got,
        vec![
            ("srv1".to_string(), "aaa".to_string()),
            ("srv1".to_string(), "bbb".to_string()),
            ("srv2".to_string(), "aaa".to_string()),
        ]
    );

    options.sort_order = SortOrder::ToolThenServer;
    let outcome = search_from_results(results, &criteria, &options).unwrap();
    let got: Vec<(String, String)> = outcome
        .matches
        .iter()
        .map(|m| (m.server_name.clone(), m.tool_name().to_string()))
        .collect();
    assert_eq!(
        got,
        vec![
            ("srv1".to_string(), "aaa".to_string()),
            ("srv2".to_string(), "aaa".to_string()),
            ("srv1".to_string(), "bbb".to_string()),
        ]
    );
}

#[test]
fn test_unsorted_keeps_arrival_order() {
    let results = vec![
        ok_result("zzz", vec![named_tool("zzz_tool")]),
        ok_result("aaa", vec![named_tool("aaa_tool")]),
    ];
    let criteria = SearchCriteria::match_all();
    let mut options = SearchOptions::default();
    options.sort_order = SortOrder::Unsorted;

    let outcome = search_from_results(results, &criteria, &options).unwrap();
    assert_eq!(outcome.matches[0].server_name, "zzz");
    assert_eq!(outcome.matches[1].server_name, "aaa");
}

#[test]
fn test_plan_queries() {
    let valid = ServerConfig {
        name: "good".to_string(),
        transport: TransportConfig::Stdio {
            command: "echo".to_string(),
            args: vec![],
            env: HashMap::new(),
        },
    };
    let invalid = ServerConfig {
        name: "bad".to_string(),
        transport: TransportConfig::Stdio {
            command: "".to_string(),
            args: vec![],
            env: HashMap::new(),
        },
    };

    // Tolerant: invalid servers are skipped, valid ones queried.
    let servers = vec![valid.clone(), invalid.clone()];
    let flags = plan_queries(&servers, true).unwrap();
    assert_eq!(flags, vec![true, false]);

    // Intolerant: the first invalid descriptor aborts the call.
    let r = plan_queries(&servers, false);
    match r {
        Err(ToolSearchError::Connection(m)) => {
            assert_eq!(m, "Command cannot be empty for server: bad")
        }
        _ => panic!("expected a validation failure"),
    }
}

#[test]
fn test_error_messages() {
    let cases = vec![
        (
            ToolSearchError::Transport("t".to_string()),
            "Transport error: t",
        ),
        (
            ToolSearchError::McpProtocol("p".to_string()),
            "MCP protocol error: p",
        ),
        (
            ToolSearchError::Connection("c".to_string()),
            "Connection error: c",
        ),
        (
            ToolSearchError::UnsupportedTransport("u".to_string()),
            "Unsupported transport: u",
        ),
        (ToolSearchError::Io("i".to_string()), "IO error: i"),
        (
            ToolSearchError::Serialization("s".to_string()),
            "Serialization error: s",
        ),
        (ToolSearchError::Other("o".to_string()), "Other error: o"),
    ];
    for (err, expected) in cases {
        assert_eq!(err.message(), expected);
    }
}
