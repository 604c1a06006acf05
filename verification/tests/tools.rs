use cerebus_rex::codec::encode_json;
use cerebus_rex::config::Settings;
use cerebus_rex::filesystem::{
    DeleteOutcome, DirEntryInfo, FileAction, FileOperationRequest, FilesystemTool,
};
use cerebus_rex::handlers::{
    ContextHandler, HandlerState, IndexHandler, RequestHandler, SearchHandler, ToolHandler,
};
use cerebus_rex::json::JsonValue;
use cerebus_rex::protocol::{McpRequest, encode_response};
use cerebus_rex::rag::RagClient;
use cerebus_rex::search_tool::{SearchRequest, SearchTool};
use cerebus_rex::sync::AgentCoordinator;

#[test]
fn test_rag_client_creation() {
    let rag_client = RagClient::default();
    assert_eq!(rag_client.endpoint, "http://localhost:6333");
    assert_eq!(rag_client.collections.len(), 3);
}

#[test]
fn test_rag_client_initialization() {
    let mut rag_client = RagClient::default();
    let collections = rag_client.initialize();
    assert!(rag_client.connected);
    assert_eq!(collections, vec![
        "documentation".to_owned(),
        "code".to_owned(),
        "config".to_owned(),
    ]);
}

#[test]
fn test_settings_creation() {
    let settings = Settings::default();
    assert_eq!(settings.server.port, 3000);
    assert_eq!(settings.qdrant.endpoint, "http://localhost:6333");
}

#[test]
fn default_client_names_its_collections() {
    let rag_client = RagClient::default();
    assert_eq!(rag_client.collections, vec![
        "documentation".to_owned(),
        "code".to_owned(),
        "config".to_owned(),
    ]);
    assert!(!rag_client.connected);
    assert!(rag_client.api_key.is_none());
}

#[test]
fn search_planning_defaults_and_refusals() {
    let disconnected = SearchTool::new(RagClient::default());
    let request = SearchRequest { query: "q".to_owned(), context: None, limit: None };
    assert_eq!(
        disconnected.execute(&request).unwrap_err(),
        "Qdrant client not initialized"
    );

    let mut client = RagClient::default();
    client.initialize();
    let tool = SearchTool::new(client);
    let plan = tool.execute(&request).unwrap();
    assert_eq!(plan.collection, "documentation");
    assert_eq!(plan.query, "q");
    assert_eq!(plan.limit, 5);

    let request = SearchRequest {
        query: "q".to_owned(),
        context: Some("code".to_owned()),
        limit: Some(9),
    };
    let plan = tool.execute(&request).unwrap();
    assert_eq!(plan.collection, "code");
    assert_eq!(plan.limit, 9);
}

#[test]
fn repository_files_index_under_flattened_ids() {
    let mut client = RagClient::default();
    client.initialize();
    let docs = client
        .index_repo_files(
            "repo1",
            vec![("src/a/b.rs".to_owned(), "fn a() {}".to_owned())],
        )
        .unwrap();
    assert_eq!(docs.len(), 1);
    assert_eq!(docs[0].collection, "code");
    assert_eq!(docs[0].doc_id, "repo1-src_a_b.rs");
    assert_eq!(docs[0].content, "fn a() {}");
    assert_eq!(
        encode_json(&JsonValue::Obj(docs.into_iter().next().unwrap().metadata)),
        "{\"repo_id\":\"repo1\",\"file_path\":\"src/a/b.rs\"}"
    );

    let disconnected = RagClient::default();
    assert!(disconnected
        .index_repo_files("r", vec![("a".to_owned(), "b".to_owned())])
        .is_err());
    assert_eq!(disconnected.index_repo_files("r", vec![]).unwrap().len(), 0);
    assert_eq!(
        disconnected.get_document("code", "d1").unwrap_err(),
        "Qdrant client not initialized"
    );
    let mut connected = RagClient::default();
    connected.initialize();
    assert_eq!(
        connected.get_document("code", "d1").unwrap().unwrap(),
        "Content of document d1"
    );
}

fn file_request(op: &str, path: &str, content: Option<&str>) -> FileOperationRequest {
    FileOperationRequest {
        operation: op.to_owned(),
        path: path.to_owned(),
        content: content.map(|c| c.to_owned()),
        recursive: None,
    }
}

#[test]
fn file_operations_are_planned_and_wrapped() {
    let tool = FilesystemTool;
    assert!(matches!(
        tool.execute(file_request("read", "/f", None)),
        Ok(FileAction::Read { path }) if path == "/f"
    ));
    assert!(matches!(
        tool.execute(file_request("write", "/f", Some("body"))),
        Ok(FileAction::Write { path, content }) if path == "/f" && content == "body"
    ));
    let resp = tool.execute(file_request("write", "/f", None)).unwrap_err();
    assert!(!resp.success);
    assert_eq!(resp.message, "Content required for write operation");
    let resp = tool.execute(file_request("shred", "/f", None)).unwrap_err();
    assert_eq!(resp.message, "Unsupported operation: shred");

    let resp = tool.read_file_response("/f", Ok("body".to_owned()));
    assert!(resp.success);
    assert_eq!(
        encode_json(&resp.data.unwrap()),
        "{\"content\":\"body\",\"path\":\"/f\"}"
    );
    let resp = tool.read_file_response("/f", Err("denied".to_owned()));
    assert!(!resp.success);
    assert_eq!(resp.message, "Failed to read file: denied");

    let resp = tool.write_file_response("/f", Ok(()));
    assert_eq!(resp.message, "File written successfully");
    let resp = tool.create_file_response("/f", Err("full".to_owned()));
    assert_eq!(resp.message, "Failed to create file: full");
    let resp = tool.delete_file_response("/f", DeleteOutcome::Missing);
    assert_eq!(resp.message, "Path does not exist: /f");
    let resp = tool.delete_file_response("/f", DeleteOutcome::DirRemoved);
    assert_eq!(resp.message, "Directory deleted successfully");
}

#[test]
fn directory_entries_are_listed_and_queued() {
    let tool = FilesystemTool;
    let entries = vec![
        DirEntryInfo {
            name: "a.rs".to_owned(),
            path: "/d/a.rs".to_owned(),
            is_file: true,
            is_dir: false,
        },
        DirEntryInfo {
            name: "sub".to_owned(),
            path: "/d/sub".to_owned(),
            is_file: false,
            is_dir: true,
        },
    ];
    let (infos, dirs) = tool.entries_to_json(&entries);
    assert_eq!(dirs, vec!["/d/sub".to_owned()]);
    let resp = tool.list_directory_response(infos, false);
    assert_eq!(resp.message, "Directory listed successfully");
    assert_eq!(
        encode_json(&resp.data.unwrap()),
        "[{\"name\":\"a.rs\",\"path\":\"/d/a.rs\",\"is_file\":true,\"is_directory\":false},\
         {\"name\":\"sub\",\"path\":\"/d/sub\",\"is_file\":false,\"is_directory\":true}]"
    );
}

fn handler_state() -> HandlerState {
    HandlerState {
        rag_client: RagClient::default(),
        agent_coordinator: AgentCoordinator::new(),
    }
}

fn handler_request(params: Option<JsonValue>) -> McpRequest {
    McpRequest::new("any".to_owned(), params, Some("h1".to_owned()))
}

#[test]
fn handlers_answer_their_request_families() {
    let state = handler_state();
    let params = JsonValue::Obj(vec![(
        "query".to_owned(),
        JsonValue::Str("abc".to_owned()),
    )]);
    let resp = SearchHandler.handle(&state, handler_request(Some(params)));
    assert!(resp.error.is_none());
    let text = encode_json(&resp.result.unwrap());
    assert!(text.contains("Search result for query: abc"));
    assert!(text.contains("\"score\":95"));

    let resp = SearchHandler.handle(&state, handler_request(None));
    assert_eq!(resp.error.unwrap().message, "Missing parameters");

    let params = JsonValue::Obj(vec![(
        "repo_id".to_owned(),
        JsonValue::Str("r9".to_owned()),
    )]);
    let resp = IndexHandler.handle(&state, handler_request(Some(params)));
    assert_eq!(
        encode_json(&resp.result.unwrap()),
        "{\"status\":\"indexed\",\"repo_id\":\"r9\"}"
    );

    let params = JsonValue::Obj(vec![("key".to_owned(), JsonValue::Str("k1".to_owned()))]);
    let resp = ContextHandler.handle(&state, handler_request(Some(params)));
    assert_eq!(
        encode_json(&resp.result.unwrap()),
        "{\"key\":\"k1\",\"value\":\"Context value for k1\"}"
    );

    let resp = ToolHandler.handle(&state, handler_request(None));
    let text = encode_response(&resp);
    assert!(text.contains("Documentation Search"));
    assert!(text.contains("\"input_schema\":null"));
    assert!(text.ends_with("\"id\":\"h1\"}"));
}
