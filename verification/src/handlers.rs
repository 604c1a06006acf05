use vstd::prelude::*;

use crate::json::{JsonValue, SpecJson, spec_get};
use crate::protocol::{McpRequest, McpResponse, SpecResponse};
use crate::rag::RagClient;
use crate::server;
use crate::sync::AgentCoordinator;

verus! {

/// The shared state the handlers read: the search client and the coordinator.
#[derive(Debug)]
pub struct HandlerState {
    pub rag_client: RagClient,
    pub agent_coordinator: AgentCoordinator,
}

/// A handler for one request family, open for users to implement. The
/// built-in handlers below each state their own contract on an inherent
/// method and route this one through it.
pub trait RequestHandler {
    fn handle(&self, state: &HandlerState, request: McpRequest) -> McpResponse;
}

/// Answers search requests with the placeholder hits the collaborator stands
/// in for.
#[derive(Debug)]
pub struct SearchHandler;

/// Acknowledges index requests.
#[derive(Debug)]
pub struct IndexHandler;

/// Answers context lookups with a placeholder value.
#[derive(Debug)]
pub struct ContextHandler;

/// Lists the handler-level tool catalogue.
#[derive(Debug)]
pub struct ToolHandler;

pub open spec fn spec_handler_error(code: int, message: Seq<char>, id: Option<Seq<char>>) -> SpecResponse {
    SpecResponse {
        result: None,
        error: Some(crate::protocol::SpecError { code, message }),
        id,
    }
}

pub open spec fn spec_handler_success(v: SpecJson, id: Option<Seq<char>>) -> SpecResponse {
    SpecResponse { result: Some(v), error: None, id }
}

/// The placeholder hits a search request is answered with: one echoing the
/// query, one fixed, scored in hundredths.
pub open spec fn spec_mock_results(query: Seq<char>) -> SpecJson {
    SpecJson::Arr(
        seq![
            SpecJson::Obj(
                seq![
                    ("id"@, SpecJson::Str("1"@)),
                    ("content"@, SpecJson::Str("Search result for query: "@ + query)),
                    ("source"@, SpecJson::Str("mock.md"@)),
                    ("score"@, SpecJson::Int(95)),
                    ("metadata"@, SpecJson::Obj(Seq::empty())),
                ],
            ),
            SpecJson::Obj(
                seq![
                    ("id"@, SpecJson::Str("2"@)),
                    ("content"@, SpecJson::Str("Another relevant result"@)),
                    ("source"@, SpecJson::Str("project-structure.md"@)),
                    ("score"@, SpecJson::Int(85)),
                    ("metadata"@, SpecJson::Obj(Seq::empty())),
                ],
            ),
        ],
    )
}

impl SearchHandler {
    /// Missing parameters and a missing or malformed query are refused; a
    /// well-formed query earns the placeholder hits.
    pub fn respond(&self, state: &HandlerState, request: McpRequest) -> (r: McpResponse)
        ensures
            match request@.params {
                None => r@ == spec_handler_error(-1, "Missing parameters"@, request@.id),
                Some(p) => match spec_get(p, "query"@) {
                    Some(SpecJson::Str(q)) => r@ == spec_handler_success(
                        spec_mock_results(q),
                        request@.id,
                    ),
                    _ => r@ == spec_handler_error(
                        -1,
                        "Invalid search request parameters"@,
                        request@.id,
                    ),
                },
            },
    {
        let params = match &request.params {
            Some(p) => p,
            None => {
                return McpResponse::error(-1, "Missing parameters".to_owned(), request.id);
            },
        };
        let query = match params.get("query") {
            Some(JsonValue::Str(q)) => q.clone(),
            _ => {
                return McpResponse::error(
                    -1,
                    "Invalid search request parameters".to_owned(),
                    request.id,
                );
            },
        };
        let first = server::obj5(
            "id",
            server::jstr("1"),
            "content",
            JsonValue::Str("Search result for query: ".to_owned().concat(query.as_str())),
            "source",
            server::jstr("mock.md"),
            "score",
            JsonValue::Int(95),
            "metadata",
            JsonValue::Obj(Vec::new()),
        );
        let second = server::obj5(
            "id",
            server::jstr("2"),
            "content",
            server::jstr("Another relevant result"),
            "source",
            server::jstr("project-structure.md"),
            "score",
            JsonValue::Int(85),
            "metadata",
            JsonValue::Obj(Vec::new()),
        );
        let results = server::arr2(first, second);
        McpResponse::success(results, request.id)
    }
}

impl RequestHandler for SearchHandler {
    fn handle(&self, state: &HandlerState, request: McpRequest) -> McpResponse {
        self.respond(state, request)
    }
}

impl IndexHandler {
    /// Missing parameters and a missing repository id are refused; otherwise
    /// the batch is acknowledged under its repository id.
    pub fn respond(&self, state: &HandlerState, request: McpRequest) -> (r: McpResponse)
        ensures
            match request@.params {
                None => r@ == spec_handler_error(-1, "Missing parameters"@, request@.id),
                Some(p) => match spec_get(p, "repo_id"@) {
                    Some(SpecJson::Str(rid)) => r@ == spec_handler_success(
                        SpecJson::Obj(
                            seq![
                                ("status"@, SpecJson::Str("indexed"@)),
                                ("repo_id"@, SpecJson::Str(rid)),
                            ],
                        ),
                        request@.id,
                    ),
                    _ => r@ == spec_handler_error(
                        -1,
                        "Invalid index request parameters"@,
                        request@.id,
                    ),
                },
            },
    {
        let params = match &request.params {
            Some(p) => p,
            None => {
                return McpResponse::error(-1, "Missing parameters".to_owned(), request.id);
            },
        };
        let repo_id = match params.get("repo_id") {
            Some(JsonValue::Str(rid)) => rid.clone(),
            _ => {
                return McpResponse::error(
                    -1,
                    "Invalid index request parameters".to_owned(),
                    request.id,
                );
            },
        };
        let result = server::obj2(
            "status",
            server::jstr("indexed"),
            "repo_id",
            JsonValue::Str(repo_id),
        );
        McpResponse::success(result, request.id)
    }
}

impl RequestHandler for IndexHandler {
    fn handle(&self, state: &HandlerState, request: McpRequest) -> McpResponse {
        self.respond(state, request)
    }
}

impl ContextHandler {
    /// Missing parameters and a missing key are refused; a key is answered
    /// with a placeholder value naming it.
    pub fn respond(&self, state: &HandlerState, request: McpRequest) -> (r: McpResponse)
        ensures
            match request@.params {
                None => r@ == spec_handler_error(-1, "Missing parameters"@, request@.id),
                Some(p) => match spec_get(p, "key"@) {
                    Some(SpecJson::Str(k)) => r@ == spec_handler_success(
                        SpecJson::Obj(
                            seq![
                                ("key"@, SpecJson::Str(k)),
                                ("value"@, SpecJson::Str("Context value for "@ + k)),
                            ],
                        ),
                        request@.id,
                    ),
                    _ => r@ == spec_handler_error(
                        -1,
                        "Missing key parameter"@,
                        request@.id,
                    ),
                },
            },
    {
        let params = match &request.params {
            Some(p) => p,
            None => {
                return McpResponse::error(-1, "Missing parameters".to_owned(), request.id);
            },
        };
        let key = match params.get("key") {
            Some(JsonValue::Str(k)) => k.clone(),
            _ => {
                return McpResponse::error(
                    -1,
                    "Missing key parameter".to_owned(),
                    request.id,
                );
            },
        };
        let value = JsonValue::Str("Context value for ".to_owned().concat(key.as_str()));
        let result = server::obj2("key", JsonValue::Str(key), "value", value);
        McpResponse::success(result, request.id)
    }
}

impl RequestHandler for ContextHandler {
    fn handle(&self, state: &HandlerState, request: McpRequest) -> McpResponse {
        self.respond(state, request)
    }
}

/// The handler-level tool catalogue: three tools, no schemas.
pub open spec fn spec_handler_tools() -> SpecJson {
    SpecJson::Arr(
        seq![
            SpecJson::Obj(
                seq![
                    ("id"@, SpecJson::Str("search"@)),
                    ("name"@, SpecJson::Str("Documentation Search"@)),
                    ("description"@, SpecJson::Str("Search documentation and codebase"@)),
                    ("input_schema"@, SpecJson::Null),
                ],
            ),
            SpecJson::Obj(
                seq![
                    ("id"@, SpecJson::Str("index_repo"@)),
                    ("name"@, SpecJson::Str("Repository Indexer"@)),
                    (
                        "description"@,
                        SpecJson::Str("Index repository files for quick access"@),
                    ),
                    ("input_schema"@, SpecJson::Null),
                ],
            ),
            SpecJson::Obj(
                seq![
                    ("id"@, SpecJson::Str("get_context"@)),
                    ("name"@, SpecJson::Str("Context Manager"@)),
                    (
                        "description"@,
                        SpecJson::Str("Access and manage context information"@),
                    ),
                    ("input_schema"@, SpecJson::Null),
                ],
            ),
        ],
    )
}

impl ToolHandler {
    /// Always the fixed catalogue, under the echoed id.
    pub fn respond(&self, state: &HandlerState, request: McpRequest) -> (r: McpResponse)
        ensures
            r@ == spec_handler_success(spec_handler_tools(), request@.id),
    {
        let t1 = server::obj4(
            "id",
            server::jstr("search"),
            "name",
            server::jstr("Documentation Search"),
            "description",
            server::jstr("Search documentation and codebase"),
            "input_schema",
            JsonValue::Null,
        );
        let t2 = server::obj4(
            "id",
            server::jstr("index_repo"),
            "name",
            server::jstr("Repository Indexer"),
            "description",
            server::jstr("Index repository files for quick access"),
            "input_schema",
            JsonValue::Null,
        );
        let t3 = server::obj4(
            "id",
            server::jstr("get_context"),
            "name",
            server::jstr("Context Manager"),
            "description",
            server::jstr("Access and manage context information"),
            "input_schema",
            JsonValue::Null,
        );
        let tools = server::arr3(t1, t2, t3);
        McpResponse::success(tools, request.id)
    }
}

impl RequestHandler for ToolHandler {
    fn handle(&self, state: &HandlerState, request: McpRequest) -> McpResponse {
        self.respond(state, request)
    }
}

} // verus!
