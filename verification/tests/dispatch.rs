use cerebus_rex::code_context::ThreadsafeCodeContextTool;
use cerebus_rex::codec::encode_json;
use cerebus_rex::filesystem::FilesystemTool;
use cerebus_rex::json::JsonValue;
use cerebus_rex::rag::RagClient;
use cerebus_rex::search_tool::SearchTool;
use cerebus_rex::protocol::decode_request;
use cerebus_rex::server::{
    CerebusRexMcpServer, DispatchStep, McpRequest, McpResponse, ToolAction,
    encode_server_response, finish_tool_call, index_repo_result, initialize_candidates,
    initialize_context_result, resolve_method, search_output,
};
use cerebus_rex::types::SearchResult;

fn server() -> CerebusRexMcpServer {
    CerebusRexMcpServer::new(
        RagClient::default(),
        SearchTool::new(RagClient::default()),
        FilesystemTool,
        ThreadsafeCodeContextTool::new(),
    )
}

fn expect_respond(step: DispatchStep) -> McpResponse {
    match step {
        DispatchStep::Respond(r) => r,
        DispatchStep::Invoke { .. } => panic!("expected an immediate response"),
    }
}

#[test]
fn server_info_is_answered_in_full() {
    let step = server().handle_request("{\"method\":\"server/info\",\"id\":\"1\"}");
    let resp = expect_respond(step);
    assert_eq!(
        encode_server_response(&resp),
        "{\"result\":{\"name\":\"Cerebus-Rex MCP Server\",\"version\":\"0.1.0\",\
         \"capabilities\":{\"list_resources\":true,\"read_resource\":true,\
         \"list_prompts\":true,\"get_prompt\":true,\"list_tools\":true,\
         \"call_tool\":true}},\"id\":\"1\"}"
    );
}

#[test]
fn a_search_call_is_planned_and_finished() {
    let text =
        "{\"method\":\"tools/call\",\"params\":{\"name\":\"search\",\"arguments\":{\"query\":\"x\"}},\"id\":\"2\"}";
    let step = server().handle_request(text);
    let (action, id) = match step {
        DispatchStep::Invoke { action, id } => (action, id),
        DispatchStep::Respond(_) => panic!("expected an invocation"),
    };
    assert_eq!(id.as_deref(), Some("2"));
    match &action {
        ToolAction::Search { query, context, limit } => {
            assert_eq!(query, "x");
            assert_eq!(context, "documentation");
            assert_eq!(*limit, 5);
        },
        _ => panic!("expected a search action"),
    }

    let results = vec![
        SearchResult {
            id: "1".to_owned(),
            content: "Something relevant".to_owned(),
            source: "guide.md".to_owned(),
            score: 95,
            metadata: None,
        },
    ];
    let output = search_output(&results);
    let resp = finish_tool_call(Ok(output), id);
    let text = encode_server_response(&resp);
    assert_eq!(
        text,
        "{\"result\":{\"content\":\"- Source: guide.md\\n  Content: Something relevant\\n  Score: 95\\n\\n\"},\"id\":\"2\"}"
    );
}

#[test]
fn a_search_call_without_a_query_is_invalid_params() {
    let text =
        "{\"method\":\"tools/call\",\"params\":{\"name\":\"search\",\"arguments\":{}},\"id\":\"2\"}";
    let resp = expect_respond(server().handle_request(text));
    match resp {
        McpResponse::Error { error, id } => {
            assert_eq!(error.code, -1);
            assert_eq!(error.message, "Missing query parameter");
            assert_eq!(id.as_deref(), Some("2"));
        },
        McpResponse::Success { .. } => panic!("expected an error"),
    }
}

#[test]
fn malformed_text_earns_the_parse_error() {
    let resp = expect_respond(server().handle_request("{not json"));
    match resp {
        McpResponse::Error { error, id } => {
            assert_eq!(error.code, -32700);
            assert_eq!(error.message, "Invalid JSON");
            assert!(id.is_none());
        },
        McpResponse::Success { .. } => panic!("expected an error"),
    }
    let resp = expect_respond(server().handle_request("{\"id\":\"7\",\"method\":5}"));
    match resp {
        McpResponse::Error { error, id } => {
            assert_eq!(error.code, -32700);
            assert_eq!(id.as_deref(), Some("7"));
        },
        McpResponse::Success { .. } => panic!("expected an error"),
    }
    assert_eq!(
        encode_server_response(&expect_respond(server().handle_request("junk"))),
        "{\"error\":{\"code\":-32700,\"message\":\"Invalid JSON\"}}"
    );
}

#[test]
fn unknown_methods_and_tools_are_refused() {
    let resp = expect_respond(server().handle_request("{\"method\":\"no/such\",\"id\":\"3\"}"));
    match resp {
        McpResponse::Error { error, id } => {
            assert_eq!(error.code, -32601);
            assert_eq!(error.message, "Method not found: no/such");
            assert_eq!(id.as_deref(), Some("3"));
        },
        McpResponse::Success { .. } => panic!("expected an error"),
    }
    let resp = expect_respond(server().handle_request(
        "{\"method\":\"tools/call\",\"params\":{\"name\":\"nope\"},\"id\":\"4\"}",
    ));
    match resp {
        McpResponse::Error { error, .. } => {
            assert_eq!(error.code, -32000);
            assert_eq!(error.message, "Unknown tool: nope");
        },
        McpResponse::Success { .. } => panic!("expected an error"),
    }
}

#[test]
fn discovery_lists_are_complete() {
    let s = server();
    let tools = s.list_tools();
    let names: Vec<&str> = tools.iter().map(|t| t.name.as_str()).collect();
    assert_eq!(names, vec!["search", "filesystem_read", "index_repo", "initialize_context"]);

    let step = s.handle_request("{\"method\":\"tools/list\",\"id\":\"5\"}");
    let text = encode_server_response(&expect_respond(step));
    assert!(text.starts_with("{\"result\":[{\"name\":\"search\""));
    assert!(text.ends_with("\"id\":\"5\"}"));

    let resources = s.list_resources();
    assert_eq!(resources.len(), 2);
    assert_eq!(resources[0].uri_template, "cerebus-rex://docs");
    assert_eq!(resources[1].uri_template, "cerebus-rex://code");

    let prompts = s.list_prompts();
    assert_eq!(prompts.len(), 1);
    assert_eq!(prompts[0].name, "code_search");
}

#[test]
fn resources_are_read_by_prefix() {
    let s = server();
    assert_eq!(
        s.read_resource("cerebus-rex://docs/setup").unwrap(),
        "Documentation content from RAG system"
    );
    assert_eq!(
        s.read_resource("cerebus-rex://code").unwrap(),
        "Code content from repository"
    );
    assert_eq!(
        s.read_resource("other://x").unwrap_err(),
        "Resource not found: other://x"
    );

    let step = s.handle_request(
        "{\"method\":\"resources/read\",\"params\":{\"uri\":\"cerebus-rex://docs\"},\"id\":\"6\"}",
    );
    assert_eq!(
        encode_server_response(&expect_respond(step)),
        "{\"result\":{\"content\":\"Documentation content from RAG system\"},\"id\":\"6\"}"
    );
}

#[test]
fn prompts_are_fetched_by_name() {
    let s = server();
    let prompt = s.get_prompt("code_search").unwrap();
    assert_eq!(prompt.messages.len(), 1);
    assert_eq!(prompt.messages[0].role, "user");
    assert_eq!(
        s.get_prompt("nope").unwrap_err(),
        "Prompt not found: nope"
    );
    let step = s.handle_request(
        "{\"method\":\"prompts/get\",\"params\":{\"name\":\"code_search\"},\"id\":\"8\"}",
    );
    assert_eq!(
        encode_server_response(&expect_respond(step)),
        "{\"result\":{\"messages\":[{\"role\":\"user\",\"content\":\"Search Results:\\nCode search results here\"}]},\"id\":\"8\"}"
    );
}

#[test]
fn index_and_context_calls_are_planned() {
    let s = server();
    let step = s.handle_request(
        "{\"method\":\"tools/call\",\"params\":{\"name\":\"index_repo\",\"arguments\":{\"repo_id\":\"r\",\"files\":[\"a.rs\",7,\"b.rs\"]}},\"id\":\"9\"}",
    );
    match step {
        DispatchStep::Invoke { action: ToolAction::IndexRepo { repo_id, files }, .. } => {
            assert_eq!(repo_id, "r");
            assert_eq!(files, vec!["a.rs".to_owned(), "b.rs".to_owned()]);
        },
        _ => panic!("expected an index invocation"),
    }
    assert_eq!(
        encode_json(&index_repo_result("r")),
        "{\"status\":\"indexed\",\"repo_id\":\"r\"}"
    );

    let step = s.handle_request(
        "{\"method\":\"tools/call\",\"params\":{\"name\":\"initialize_context\",\"arguments\":{\"repo_path\":\"/r\",\"include_code\":false}},\"id\":\"10\"}",
    );
    match step {
        DispatchStep::Invoke {
            action: ToolAction::InitializeContext { repo_path, include_docs, include_code },
            ..
        } => {
            assert_eq!(repo_path, "/r");
            assert!(include_docs);
            assert!(!include_code);
        },
        _ => panic!("expected an initialize invocation"),
    }
    let candidates = initialize_candidates("/r", true, false);
    assert_eq!(
        candidates,
        vec![
            "/r/README.md".to_owned(),
            "/r/CHANGELOG.md".to_owned(),
            "/r/CONTRIBUTING.md".to_owned(),
            "/r/LICENSE".to_owned(),
        ]
    );
    let candidates = initialize_candidates("/r", false, true);
    assert_eq!(candidates, vec!["/r/src/main.rs".to_owned(), "/r/src/lib.rs".to_owned()]);
    assert_eq!(
        encode_json(&initialize_context_result("repo_x", 3, true, false)),
        "{\"status\":\"context_initialized\",\"repo_id\":\"repo_x\",\
         \"indexed_files_count\":3,\"included_docs\":true,\"included_code\":false,\
         \"message\":\"Context initialized successfully. Repository indexed for semantic search.\"}"
    );
}

#[test]
fn envelopes_resolve_to_the_closed_catalogue() {
    let env = decode_request("{\"method\":\"tools/list\"}").unwrap();
    assert!(matches!(resolve_method(&env), Some(McpRequest::ListTools)));

    let env = decode_request(
        "{\"method\":\"tools/call\",\"params\":{\"name\":\"search\",\"arguments\":{\"query\":\"x\"}}}",
    )
    .unwrap();
    match resolve_method(&env) {
        Some(McpRequest::CallTool { name, arguments }) => {
            assert_eq!(name, "search");
            let args = arguments.unwrap();
            assert_eq!(args.len(), 1);
            assert_eq!(args[0].0, "query");
        },
        _ => panic!("expected a call variant"),
    }

    let env = decode_request("{\"method\":\"tools/call\",\"params\":{}}").unwrap();
    assert!(resolve_method(&env).is_none());

    let env = decode_request(
        "{\"method\":\"resources/read\",\"params\":{\"uri\":\"cerebus-rex://docs\"}}",
    )
    .unwrap();
    assert!(matches!(
        resolve_method(&env),
        Some(McpRequest::ReadResource { uri }) if uri == "cerebus-rex://docs"
    ));

    let env = decode_request("{\"method\":\"server/info\"}").unwrap();
    assert!(matches!(resolve_method(&env), Some(McpRequest::GetServerInfo)));

    let env = decode_request("{\"method\":\"no/such\"}").unwrap();
    assert!(resolve_method(&env).is_none());
}

#[test]
fn failed_tool_calls_become_application_errors() {
    let resp = finish_tool_call(Err("collaborator broke".to_owned()), Some("11".to_owned()));
    assert_eq!(
        encode_server_response(&resp),
        "{\"error\":{\"code\":-32000,\"message\":\"collaborator broke\"},\"id\":\"11\"}"
    );
}
