use vstd::prelude::*;

use crate::code_context::ThreadsafeCodeContextTool;
use crate::filesystem::{FileOperationResponse, FilesystemTool, str_views};
use crate::json::{JsonValue, SpecJson, push_member, spec_get, str_eq};
use crate::protocol::{SpecError, SpecRequest, SpecResponse};
use crate::rag::RagClient;
use crate::search_tool::SearchTool;
use crate::types::SearchResult;

verus! {

/// The protocol server: the injected collaborators a connection dispatches
/// into.
#[derive(Debug)]
pub struct CerebusRexMcpServer {
    pub rag_client: RagClient,
    pub search_tool: SearchTool,
    pub filesystem_tool: FilesystemTool,
    pub context_tool: ThreadsafeCodeContextTool,
}

/// A request resolved to its method variant.
#[derive(Debug)]
pub enum McpRequest {
    ListTools,
    CallTool { name: String, arguments: Option<Vec<(String, JsonValue)>> },
    ListResources,
    ReadResource { uri: String },
    ListPrompts,
    GetPrompt { name: String, arguments: Option<Vec<(String, JsonValue)>> },
    GetServerInfo,
}

/// Abstract form of a resolved request.
pub enum SpecMethodRequest {
    ListTools,
    CallTool { name: Seq<char>, arguments: Option<Seq<(Seq<char>, SpecJson)>> },
    ListResources,
    ReadResource { uri: Seq<char> },
    ListPrompts,
    GetPrompt { name: Seq<char>, arguments: Option<Seq<(Seq<char>, SpecJson)>> },
    GetServerInfo,
}

impl View for McpRequest {
    type V = SpecMethodRequest;

    open spec fn view(&self) -> SpecMethodRequest {
        match self {
            McpRequest::ListTools => SpecMethodRequest::ListTools,
            McpRequest::CallTool { name, arguments } => SpecMethodRequest::CallTool {
                name: name@,
                arguments: match arguments {
                    Some(a) => Some(JsonValue::view_obj(a@)),
                    None => None,
                },
            },
            McpRequest::ListResources => SpecMethodRequest::ListResources,
            McpRequest::ReadResource { uri } => SpecMethodRequest::ReadResource { uri: uri@ },
            McpRequest::ListPrompts => SpecMethodRequest::ListPrompts,
            McpRequest::GetPrompt { name, arguments } => SpecMethodRequest::GetPrompt {
                name: name@,
                arguments: match arguments {
                    Some(a) => Some(JsonValue::view_obj(a@)),
                    None => None,
                },
            },
            McpRequest::GetServerInfo => SpecMethodRequest::GetServerInfo,
        }
    }
}

/// A response: a result or an error, never both.
#[derive(Debug)]
pub enum McpResponse {
    Success { result: JsonValue, id: Option<String> },
    Error { error: McpError, id: Option<String> },
}

/// A protocol error: a code from the taxonomy and a message.
#[derive(Debug)]
pub struct McpError {
    pub code: i32,
    pub message: String,
}

impl View for McpResponse {
    type V = SpecResponse;

    open spec fn view(&self) -> SpecResponse {
        match self {
            McpResponse::Success { result, id } => SpecResponse {
                result: Some(result@),
                error: None,
                id: match id {
                    Some(i) => Some(i@),
                    None => None,
                },
            },
            McpResponse::Error { error, id } => SpecResponse {
                result: None,
                error: Some(SpecError { code: error.code as int, message: error.message@ }),
                id: match id {
                    Some(i) => Some(i@),
                    None => None,
                },
            },
        }
    }
}

/// A tool as discovery lists it.
#[derive(Debug)]
pub struct Tool {
    pub name: String,
    pub description: Option<String>,
    pub input_schema: Option<JsonValue>,
}

/// A resource as discovery lists it.
#[derive(Debug)]
pub struct ResourceTemplate {
    pub uri_template: String,
    pub name: String,
    pub description: Option<String>,
}

/// A prompt as discovery lists it.
#[derive(Debug)]
pub struct PromptTemplate {
    pub name: String,
    pub description: Option<String>,
    pub parameters: Option<JsonValue>,
}

/// A prompt's rendered messages.
#[derive(Debug)]
pub struct Prompt {
    pub messages: Vec<MessageContent>,
}

#[derive(Debug)]
pub struct MessageContent {
    pub role: String,
    pub content: String,
}

/// What the server says of itself.
#[derive(Debug)]
pub struct ServerInfo {
    pub name: String,
    pub version: String,
    pub capabilities: Capabilities,
}

/// The six protocol surfaces, each flagged on.
#[derive(Debug)]
pub struct Capabilities {
    pub list_resources: bool,
    pub read_resource: bool,
    pub list_prompts: bool,
    pub get_prompt: bool,
    pub list_tools: bool,
    pub call_tool: bool,
}

/// One planned collaborator invocation.
#[derive(Debug)]
pub enum ToolAction {
    Search { query: String, context: String, limit: u32 },
    ReadFile { path: String },
    IndexRepo { repo_id: String, files: Vec<String> },
    InitializeContext { repo_path: String, include_docs: bool, include_code: bool },
}

/// Abstract form of a planned invocation.
pub enum SpecAction {
    Search { query: Seq<char>, context: Seq<char>, limit: u32 },
    ReadFile { path: Seq<char> },
    IndexRepo { repo_id: Seq<char>, files: Seq<Seq<char>> },
    InitializeContext { repo_path: Seq<char>, include_docs: bool, include_code: bool },
}

impl View for ToolAction {
    type V = SpecAction;

    open spec fn view(&self) -> SpecAction {
        match self {
            ToolAction::Search { query, context, limit } => SpecAction::Search {
                query: query@,
                context: context@,
                limit: *limit,
            },
            ToolAction::ReadFile { path } => SpecAction::ReadFile { path: path@ },
            ToolAction::IndexRepo { repo_id, files } => SpecAction::IndexRepo {
                repo_id: repo_id@,
                files: str_views(files@),
            },
            ToolAction::InitializeContext { repo_path, include_docs, include_code } => {
                SpecAction::InitializeContext {
                    repo_path: repo_path@,
                    include_docs: *include_docs,
                    include_code: *include_code,
                }
            },
        }
    }
}

/// What one received message leads to: an immediate response, or a
/// collaborator invocation whose outcome the caller brings back.
#[derive(Debug)]
pub enum DispatchStep {
    Respond(McpResponse),
    Invoke { action: ToolAction, id: Option<String> },
}

/// Abstract form of a dispatch step.
pub enum SpecStep {
    Respond(SpecResponse),
    Invoke(SpecAction, Option<Seq<char>>),
}

impl View for DispatchStep {
    type V = SpecStep;

    open spec fn view(&self) -> SpecStep {
        match self {
            DispatchStep::Respond(resp) => SpecStep::Respond(resp@),
            DispatchStep::Invoke { action, id } => SpecStep::Invoke(
                action@,
                match id {
                    Some(i) => Some(i@),
                    None => None,
                },
            ),
        }
    }
}

pub open spec fn spec_success(v: SpecJson, id: Option<Seq<char>>) -> SpecResponse {
    SpecResponse { result: Some(v), error: None, id }
}

pub open spec fn spec_error_resp(code: int, message: Seq<char>, id: Option<Seq<char>>) -> SpecResponse {
    SpecResponse { result: None, error: Some(SpecError { code, message }), id }
}

// ---------------------------------------------------------------------------
// Small builders
// ---------------------------------------------------------------------------

pub(crate) fn jstr(s: &str) -> (r: JsonValue)
    ensures
        r@ == SpecJson::Str(s@),
{
    JsonValue::Str(s.to_owned())
}

pub(crate) fn obj1(k1: &str, v1: JsonValue) -> (r: JsonValue)
    ensures
        r@ == SpecJson::Obj(seq![(k1@, v1@)]),
{
    let mut ms: Vec<(String, JsonValue)> = Vec::new();
    proof {
        assert(JsonValue::view_obj(ms@) =~= Seq::<(Seq<char>, SpecJson)>::empty());
    }
    let ghost t1 = v1@;
    push_member(&mut ms, k1.to_owned(), v1);
    proof {
        assert(JsonValue::view_obj(ms@) =~= seq![(k1@, t1)]);
    }
    JsonValue::Obj(ms)
}

pub(crate) fn obj2(k1: &str, v1: JsonValue, k2: &str, v2: JsonValue) -> (r: JsonValue)
    ensures
        r@ == SpecJson::Obj(seq![(k1@, v1@), (k2@, v2@)]),
{
    let mut ms: Vec<(String, JsonValue)> = Vec::new();
    proof {
        assert(JsonValue::view_obj(ms@) =~= Seq::<(Seq<char>, SpecJson)>::empty());
    }
    let ghost t1 = v1@;
    let ghost t2 = v2@;
    push_member(&mut ms, k1.to_owned(), v1);
    push_member(&mut ms, k2.to_owned(), v2);
    proof {
        assert(JsonValue::view_obj(ms@) =~= seq![(k1@, t1), (k2@, t2)]);
    }
    JsonValue::Obj(ms)
}

pub(crate) fn obj3(k1: &str, v1: JsonValue, k2: &str, v2: JsonValue, k3: &str, v3: JsonValue) -> (r:
    JsonValue)
    ensures
        r@ == SpecJson::Obj(seq![(k1@, v1@), (k2@, v2@), (k3@, v3@)]),
{
    let mut ms: Vec<(String, JsonValue)> = Vec::new();
    proof {
        assert(JsonValue::view_obj(ms@) =~= Seq::<(Seq<char>, SpecJson)>::empty());
    }
    let ghost t1 = v1@;
    let ghost t2 = v2@;
    let ghost t3 = v3@;
    push_member(&mut ms, k1.to_owned(), v1);
    push_member(&mut ms, k2.to_owned(), v2);
    push_member(&mut ms, k3.to_owned(), v3);
    proof {
        assert(JsonValue::view_obj(ms@) =~= seq![(k1@, t1), (k2@, t2), (k3@, t3)]);
    }
    JsonValue::Obj(ms)
}

pub(crate) fn obj4(
    k1: &str,
    v1: JsonValue,
    k2: &str,
    v2: JsonValue,
    k3: &str,
    v3: JsonValue,
    k4: &str,
    v4: JsonValue,
) -> (r: JsonValue)
    ensures
        r@ == SpecJson::Obj(seq![(k1@, v1@), (k2@, v2@), (k3@, v3@), (k4@, v4@)]),
{
    let mut ms: Vec<(String, JsonValue)> = Vec::new();
    proof {
        assert(JsonValue::view_obj(ms@) =~= Seq::<(Seq<char>, SpecJson)>::empty());
    }
    let ghost t1 = v1@;
    let ghost t2 = v2@;
    let ghost t3 = v3@;
    let ghost t4 = v4@;
    push_member(&mut ms, k1.to_owned(), v1);
    push_member(&mut ms, k2.to_owned(), v2);
    push_member(&mut ms, k3.to_owned(), v3);
    push_member(&mut ms, k4.to_owned(), v4);
    proof {
        assert(JsonValue::view_obj(ms@) =~= seq![(k1@, t1), (k2@, t2), (k3@, t3), (k4@, t4)]);
    }
    JsonValue::Obj(ms)
}

pub(crate) fn obj5(
    k1: &str,
    v1: JsonValue,
    k2: &str,
    v2: JsonValue,
    k3: &str,
    v3: JsonValue,
    k4: &str,
    v4: JsonValue,
    k5: &str,
    v5: JsonValue,
) -> (r: JsonValue)
    ensures
        r@ == SpecJson::Obj(
            seq![(k1@, v1@), (k2@, v2@), (k3@, v3@), (k4@, v4@), (k5@, v5@)],
        ),
{
    let mut ms: Vec<(String, JsonValue)> = Vec::new();
    proof {
        assert(JsonValue::view_obj(ms@) =~= Seq::<(Seq<char>, SpecJson)>::empty());
    }
    let ghost t1 = v1@;
    let ghost t2 = v2@;
    let ghost t3 = v3@;
    let ghost t4 = v4@;
    let ghost t5 = v5@;
    push_member(&mut ms, k1.to_owned(), v1);
    push_member(&mut ms, k2.to_owned(), v2);
    push_member(&mut ms, k3.to_owned(), v3);
    push_member(&mut ms, k4.to_owned(), v4);
    push_member(&mut ms, k5.to_owned(), v5);
    proof {
        assert(JsonValue::view_obj(ms@) =~= seq![
            (k1@, t1),
            (k2@, t2),
            (k3@, t3),
            (k4@, t4),
            (k5@, t5),
        ]);
    }
    JsonValue::Obj(ms)
}


pub(crate) fn arr1(v1: JsonValue) -> (r: JsonValue)
    ensures
        r@ == SpecJson::Arr(seq![v1@]),
{
    let ghost g1 = v1;
    let mut xs: Vec<JsonValue> = Vec::new();
    xs.push(v1);
    proof {
        assert(xs@ =~= seq![g1]);
        crate::codec::lemma_view_arr_len_index(xs@);
        assert(xs@[0] == g1);
        assert(JsonValue::view_arr(xs@) =~= seq![g1@]);
    }
    JsonValue::Arr(xs)
}

pub(crate) fn arr2(v1: JsonValue, v2: JsonValue) -> (r: JsonValue)
    ensures
        r@ == SpecJson::Arr(seq![v1@, v2@]),
{
    let ghost g1 = v1;
    let ghost g2 = v2;
    let mut xs: Vec<JsonValue> = Vec::new();
    xs.push(v1);
    xs.push(v2);
    proof {
        assert(xs@ =~= seq![g1, g2]);
        crate::codec::lemma_view_arr_len_index(xs@);
        assert(xs@[0] == g1);
        assert(xs@[1] == g2);
        assert(JsonValue::view_arr(xs@) =~= seq![g1@, g2@]);
    }
    JsonValue::Arr(xs)
}

pub(crate) fn arr3(v1: JsonValue, v2: JsonValue, v3: JsonValue) -> (r: JsonValue)
    ensures
        r@ == SpecJson::Arr(seq![v1@, v2@, v3@]),
{
    let ghost g1 = v1;
    let ghost g2 = v2;
    let ghost g3 = v3;
    let mut xs: Vec<JsonValue> = Vec::new();
    xs.push(v1);
    xs.push(v2);
    xs.push(v3);
    proof {
        assert(xs@ =~= seq![g1, g2, g3]);
        crate::codec::lemma_view_arr_len_index(xs@);
        assert(xs@[0] == g1);
        assert(xs@[1] == g2);
        assert(xs@[2] == g3);
        assert(JsonValue::view_arr(xs@) =~= seq![g1@, g2@, g3@]);
    }
    JsonValue::Arr(xs)
}

pub(crate) fn arr4(v1: JsonValue, v2: JsonValue, v3: JsonValue, v4: JsonValue) -> (r: JsonValue)
    ensures
        r@ == SpecJson::Arr(seq![v1@, v2@, v3@, v4@]),
{
    let ghost g1 = v1;
    let ghost g2 = v2;
    let ghost g3 = v3;
    let ghost g4 = v4;
    let mut xs: Vec<JsonValue> = Vec::new();
    xs.push(v1);
    xs.push(v2);
    xs.push(v3);
    xs.push(v4);
    proof {
        assert(xs@ =~= seq![g1, g2, g3, g4]);
        crate::codec::lemma_view_arr_len_index(xs@);
        assert(xs@[0] == g1);
        assert(xs@[1] == g2);
        assert(xs@[2] == g3);
        assert(xs@[3] == g4);
        assert(JsonValue::view_arr(xs@) =~= seq![g1@, g2@, g3@, g4@]);
    }
    JsonValue::Arr(xs)
}

// ---------------------------------------------------------------------------
// Discovery metadata
// ---------------------------------------------------------------------------

pub open spec fn spec_prop(ty: Seq<char>, desc: Seq<char>) -> SpecJson {
    SpecJson::Obj(
        seq![("type"@, SpecJson::Str(ty)), ("description"@, SpecJson::Str(desc))],
    )
}

fn prop(ty: &str, desc: &str) -> (r: JsonValue)
    ensures
        r@ == spec_prop(ty@, desc@),
{
    obj2("type", jstr(ty), "description", jstr(desc))
}

pub open spec fn spec_search_schema() -> SpecJson {
    SpecJson::Obj(
        seq![
            ("type"@, SpecJson::Str("object"@)),
            (
                "properties"@,
                SpecJson::Obj(
                    seq![
                        ("query"@, spec_prop("string"@, "Search query"@)),
                        (
                            "context"@,
                            SpecJson::Obj(
                                seq![
                                    ("type"@, SpecJson::Str("string"@)),
                                    (
                                        "description"@,
                                        SpecJson::Str(
                                            "Search context (documentation, code, etc.)"@,
                                        ),
                                    ),
                                    (
                                        "enum"@,
                                        SpecJson::Arr(
                                            seq![
                                                SpecJson::Str("documentation"@),
                                                SpecJson::Str("code"@),
                                                SpecJson::Str("config"@),
                                            ],
                                        ),
                                    ),
                                ],
                            ),
                        ),
                    ],
                ),
            ),
            ("required"@, SpecJson::Arr(seq![SpecJson::Str("query"@)])),
        ],
    )
}

fn search_schema() -> (r: JsonValue)
    ensures
        r@ == spec_search_schema(),
{
    let context_p = obj3(
        "type",
        jstr("string"),
        "description",
        jstr("Search context (documentation, code, etc.)"),
        "enum",
        arr3(jstr("documentation"), jstr("code"), jstr("config")),
    );
    let props = obj2("query", prop("string", "Search query"), "context", context_p);
    obj3("type", jstr("object"), "properties", props, "required", arr1(jstr("query")))
}

pub open spec fn spec_filesystem_schema() -> SpecJson {
    SpecJson::Obj(
        seq![
            ("type"@, SpecJson::Str("object"@)),
            (
                "properties"@,
                SpecJson::Obj(seq![("path"@, spec_prop("string"@, "File path to read"@))]),
            ),
            ("required"@, SpecJson::Arr(seq![SpecJson::Str("path"@)])),
        ],
    )
}

fn filesystem_schema() -> (r: JsonValue)
    ensures
        r@ == spec_filesystem_schema(),
{
    let props = obj1("path", prop("string", "File path to read"));
    obj3("type", jstr("object"), "properties", props, "required", arr1(jstr("path")))
}

pub open spec fn spec_index_schema() -> SpecJson {
    SpecJson::Obj(
        seq![
            ("type"@, SpecJson::Str("object"@)),
            (
                "properties"@,
                SpecJson::Obj(
                    seq![
                        ("repo_id"@, spec_prop("string"@, "Repository identifier"@)),
                        (
                            "files"@,
                            SpecJson::Obj(
                                seq![
                                    ("type"@, SpecJson::Str("array"@)),
                                    (
                                        "items"@,
                                        SpecJson::Obj(
                                            seq![("type"@, SpecJson::Str("string"@))],
                                        ),
                                    ),
                                    (
                                        "description"@,
                                        SpecJson::Str("List of file paths to index"@),
                                    ),
                                ],
                            ),
                        ),
                    ],
                ),
            ),
            (
                "required"@,
                SpecJson::Arr(
                    seq![SpecJson::Str("repo_id"@), SpecJson::Str("files"@)],
                ),
            ),
        ],
    )
}

fn index_schema() -> (r: JsonValue)
    ensures
        r@ == spec_index_schema(),
{
    let files_p = obj3(
        "type",
        jstr("array"),
        "items",
        obj1("type", jstr("string")),
        "description",
        jstr("List of file paths to index"),
    );
    let props = obj2("repo_id", prop("string", "Repository identifier"), "files", files_p);
    obj3(
        "type",
        jstr("object"),
        "properties",
        props,
        "required",
        arr2(jstr("repo_id"), jstr("files")),
    )
}

pub open spec fn spec_bool_prop(desc: Seq<char>) -> SpecJson {
    SpecJson::Obj(
        seq![
            ("type"@, SpecJson::Str("boolean"@)),
            ("description"@, SpecJson::Str(desc)),
            ("default"@, SpecJson::Bool(true)),
        ],
    )
}

pub open spec fn spec_init_schema() -> SpecJson {
    SpecJson::Obj(
        seq![
            ("type"@, SpecJson::Str("object"@)),
            (
                "properties"@,
                SpecJson::Obj(
                    seq![
                        ("repo_path"@, spec_prop("string"@, "Path to repository to index"@)),
                        (
                            "include_docs"@,
                            spec_bool_prop("Whether to index documentation files"@),
                        ),
                        ("include_code"@, spec_bool_prop("Whether to index code files"@)),
                    ],
                ),
            ),
            ("required"@, SpecJson::Arr(seq![SpecJson::Str("repo_path"@)])),
        ],
    )
}

fn init_schema() -> (r: JsonValue)
    ensures
        r@ == spec_init_schema(),
{
    let docs_p = obj3(
        "type",
        jstr("boolean"),
        "description",
        jstr("Whether to index documentation files"),
        "default",
        JsonValue::Bool(true),
    );
    let code_p = obj3(
        "type",
        jstr("boolean"),
        "description",
        jstr("Whether to index code files"),
        "default",
        JsonValue::Bool(true),
    );
    let props = obj3(
        "repo_path",
        prop("string", "Path to repository to index"),
        "include_docs",
        docs_p,
        "include_code",
        code_p,
    );
    obj3("type", jstr("object"), "properties", props, "required", arr1(jstr("repo_path")))
}

pub open spec fn spec_tool_obj(name: Seq<char>, desc: Seq<char>, schema: SpecJson) -> SpecJson {
    SpecJson::Obj(
        seq![
            ("name"@, SpecJson::Str(name)),
            ("description"@, SpecJson::Str(desc)),
            ("input_schema"@, schema),
        ],
    )
}

/// The wire listing of the four built-in tools.
pub open spec fn spec_tools_json() -> SpecJson {
    SpecJson::Arr(
        seq![
            spec_tool_obj("search"@, "Search documentation and code"@, spec_search_schema()),
            spec_tool_obj(
                "filesystem_read"@,
                "Read a file from the filesystem"@,
                spec_filesystem_schema(),
            ),
            spec_tool_obj(
                "index_repo"@,
                "Index repository files for quick access"@,
                spec_index_schema(),
            ),
            spec_tool_obj(
                "initialize_context"@,
                "Initialize AI agent context by indexing repository and documentation"@,
                spec_init_schema(),
            ),
        ],
    )
}

/// The wire listing of the four built-in tools.
pub fn tools_json() -> (r: JsonValue)
    ensures
        r@ == spec_tools_json(),
{
    arr4(
        obj3(
            "name",
            jstr("search"),
            "description",
            jstr("Search documentation and code"),
            "input_schema",
            search_schema(),
        ),
        obj3(
            "name",
            jstr("filesystem_read"),
            "description",
            jstr("Read a file from the filesystem"),
            "input_schema",
            filesystem_schema(),
        ),
        obj3(
            "name",
            jstr("index_repo"),
            "description",
            jstr("Index repository files for quick access"),
            "input_schema",
            index_schema(),
        ),
        obj3(
            "name",
            jstr("initialize_context"),
            "description",
            jstr("Initialize AI agent context by indexing repository and documentation"),
            "input_schema",
            init_schema(),
        ),
    )
}

/// The wire listing of the two built-in resources.
pub open spec fn spec_resources_json() -> SpecJson {
    SpecJson::Arr(
        seq![
            SpecJson::Obj(
                seq![
                    ("uri_template"@, SpecJson::Str("cerebus-rex://docs"@)),
                    ("name"@, SpecJson::Str("Documentation"@)),
                    (
                        "description"@,
                        SpecJson::Str("Documentation resources from RAG system"@),
                    ),
                ],
            ),
            SpecJson::Obj(
                seq![
                    ("uri_template"@, SpecJson::Str("cerebus-rex://code"@)),
                    ("name"@, SpecJson::Str("Code"@)),
                    ("description"@, SpecJson::Str("Code resources from repository"@)),
                ],
            ),
        ],
    )
}

/// The wire listing of the two built-in resources.
pub fn resources_json() -> (r: JsonValue)
    ensures
        r@ == spec_resources_json(),
{
    arr2(
        obj3(
            "uri_template",
            jstr("cerebus-rex://docs"),
            "name",
            jstr("Documentation"),
            "description",
            jstr("Documentation resources from RAG system"),
        ),
        obj3(
            "uri_template",
            jstr("cerebus-rex://code"),
            "name",
            jstr("Code"),
            "description",
            jstr("Code resources from repository"),
        ),
    )
}

/// The wire listing of the one built-in prompt.
pub open spec fn spec_prompts_json() -> SpecJson {
    SpecJson::Arr(
        seq![
            SpecJson::Obj(
                seq![
                    ("name"@, SpecJson::Str("code_search"@)),
                    ("description"@, SpecJson::Str("Search for code snippets"@)),
                    (
                        "parameters"@,
                        SpecJson::Obj(
                            seq![
                                ("type"@, SpecJson::Str("object"@)),
                                (
                                    "properties"@,
                                    SpecJson::Obj(
                                        seq![("query"@, spec_prop("string"@, "Search query"@))],
                                    ),
                                ),
                                ("required"@, SpecJson::Arr(seq![SpecJson::Str("query"@)])),
                            ],
                        ),
                    ),
                ],
            ),
        ],
    )
}

/// The wire listing of the one built-in prompt.
pub fn prompts_json() -> (r: JsonValue)
    ensures
        r@ == spec_prompts_json(),
{
    let params = obj3(
        "type",
        jstr("object"),
        "properties",
        obj1("query", prop("string", "Search query")),
        "required",
        arr1(jstr("query")),
    );
    arr1(
        obj3(
            "name",
            jstr("code_search"),
            "description",
            jstr("Search for code snippets"),
            "parameters",
            params,
        ),
    )
}

/// The rendered code-search prompt.
pub open spec fn spec_code_search_prompt_json() -> SpecJson {
    SpecJson::Obj(
        seq![
            (
                "messages"@,
                SpecJson::Arr(
                    seq![
                        SpecJson::Obj(
                            seq![
                                ("role"@, SpecJson::Str("user"@)),
                                (
                                    "content"@,
                                    SpecJson::Str(
                                        "Search Results:\nCode search results here"@,
                                    ),
                                ),
                            ],
                        ),
                    ],
                ),
            ),
        ],
    )
}

/// The rendered code-search prompt.
pub fn code_search_prompt_json() -> (r: JsonValue)
    ensures
        r@ == spec_code_search_prompt_json(),
{
    obj1(
        "messages",
        arr1(
            obj2(
                "role",
                jstr("user"),
                "content",
                jstr("Search Results:\nCode search results here"),
            ),
        ),
    )
}

/// What the server says of itself: its name, its version, and all six
/// surfaces flagged on.
pub open spec fn spec_server_info_json() -> SpecJson {
    SpecJson::Obj(
        seq![
            ("name"@, SpecJson::Str("Cerebus-Rex MCP Server"@)),
            ("version"@, SpecJson::Str("0.1.0"@)),
            (
                "capabilities"@,
                SpecJson::Obj(
                    seq![
                        ("list_resources"@, SpecJson::Bool(true)),
                        ("read_resource"@, SpecJson::Bool(true)),
                        ("list_prompts"@, SpecJson::Bool(true)),
                        ("get_prompt"@, SpecJson::Bool(true)),
                        ("list_tools"@, SpecJson::Bool(true)),
                        ("call_tool"@, SpecJson::Bool(true)),
                    ],
                ),
            ),
        ],
    )
}

/// What the server says of itself.
pub fn server_info_json() -> (r: JsonValue)
    ensures
        r@ == spec_server_info_json(),
{
    let mut caps: Vec<(String, JsonValue)> = Vec::new();
    proof {
        assert(JsonValue::view_obj(caps@) =~= Seq::<(Seq<char>, SpecJson)>::empty());
    }
    push_member(&mut caps, "list_resources".to_owned(), JsonValue::Bool(true));
    push_member(&mut caps, "read_resource".to_owned(), JsonValue::Bool(true));
    push_member(&mut caps, "list_prompts".to_owned(), JsonValue::Bool(true));
    push_member(&mut caps, "get_prompt".to_owned(), JsonValue::Bool(true));
    push_member(&mut caps, "list_tools".to_owned(), JsonValue::Bool(true));
    push_member(&mut caps, "call_tool".to_owned(), JsonValue::Bool(true));
    proof {
        assert(JsonValue::view_obj(caps@) =~= seq![
            ("list_resources"@, SpecJson::Bool(true)),
            ("read_resource"@, SpecJson::Bool(true)),
            ("list_prompts"@, SpecJson::Bool(true)),
            ("get_prompt"@, SpecJson::Bool(true)),
            ("list_tools"@, SpecJson::Bool(true)),
            ("call_tool"@, SpecJson::Bool(true)),
        ]);
    }
    obj3(
        "name",
        jstr("Cerebus-Rex MCP Server"),
        "version",
        jstr("0.1.0"),
        "capabilities",
        JsonValue::Obj(caps),
    )
}

// ---------------------------------------------------------------------------
// Parameter access
// ---------------------------------------------------------------------------

pub open spec fn opt_view(p: Option<JsonValue>) -> Option<SpecJson> {
    match p {
        Some(v) => Some(v@),
        None => None,
    }
}

/// A top-level string parameter.
pub open spec fn param_str(params: Option<SpecJson>, key: Seq<char>) -> Option<Seq<char>> {
    match params {
        Some(p) => match spec_get(p, key) {
            Some(SpecJson::Str(s)) => Some(s),
            _ => None,
        },
        None => None,
    }
}

/// A tool argument, from the `arguments` object; absent arguments behave as
/// an empty map.
pub open spec fn arg_of(params: Option<SpecJson>, key: Seq<char>) -> Option<SpecJson> {
    match params {
        Some(p) => match spec_get(p, "arguments"@) {
            Some(a) => spec_get(a, key),
            None => None,
        },
        None => None,
    }
}

pub open spec fn arg_str(params: Option<SpecJson>, key: Seq<char>) -> Option<Seq<char>> {
    match arg_of(params, key) {
        Some(SpecJson::Str(s)) => Some(s),
        _ => None,
    }
}

pub open spec fn arg_bool_or(params: Option<SpecJson>, key: Seq<char>, default: bool) -> bool {
    match arg_of(params, key) {
        Some(SpecJson::Bool(b)) => b,
        _ => default,
    }
}

pub open spec fn arg_arr(params: Option<SpecJson>, key: Seq<char>) -> Option<Seq<SpecJson>> {
    match arg_of(params, key) {
        Some(SpecJson::Arr(xs)) => Some(xs),
        _ => None,
    }
}

/// The strings among the items, in order; other items are passed over.
pub open spec fn string_items(xs: Seq<SpecJson>) -> Seq<Seq<char>>
    decreases xs.len(),
{
    if xs.len() == 0 {
        Seq::empty()
    } else {
        string_items(xs.subrange(0, xs.len() - 1)) + (match xs[xs.len() - 1] {
            SpecJson::Str(s) => seq![s],
            _ => Seq::empty(),
        })
    }
}

pub open spec fn spec_starts_with(s: Seq<char>, p: Seq<char>) -> bool {
    p.len() <= s.len() && s.subrange(0, p.len() as int) == p
}

fn get_param_str(params: &Option<JsonValue>, key: &str) -> (r: Option<String>)
    ensures
        match r {
            Some(s) => param_str(opt_view(*params), key@) == Some(s@),
            None => param_str(opt_view(*params), key@) is None,
        },
{
    match params {
        Some(p) => match p.get(key) {
            Some(JsonValue::Str(s)) => Some(s.clone()),
            _ => None,
        },
        None => None,
    }
}

fn get_arg<'a>(params: &'a Option<JsonValue>, key: &str) -> (r: Option<&'a JsonValue>)
    ensures
        match r {
            Some(v) => arg_of(opt_view(*params), key@) == Some(v@),
            None => arg_of(opt_view(*params), key@) is None,
        },
{
    match params {
        Some(p) => match p.get("arguments") {
            Some(a) => a.get(key),
            None => None,
        },
        None => None,
    }
}

fn get_arg_str(params: &Option<JsonValue>, key: &str) -> (r: Option<String>)
    ensures
        match r {
            Some(s) => arg_str(opt_view(*params), key@) == Some(s@),
            None => arg_str(opt_view(*params), key@) is None,
        },
{
    match get_arg(params, key) {
        Some(JsonValue::Str(s)) => Some(s.clone()),
        _ => None,
    }
}

fn get_arg_bool_or(params: &Option<JsonValue>, key: &str, default: bool) -> (r: bool)
    ensures
        r == arg_bool_or(opt_view(*params), key@, default),
{
    match get_arg(params, key) {
        Some(JsonValue::Bool(b)) => *b,
        _ => default,
    }
}

fn string_items_exec(xs: &Vec<JsonValue>) -> (r: Vec<String>)
    ensures
        str_views(r@) == string_items(JsonValue::view_arr(xs@)),
{
    let n = xs.len();
    let mut r: Vec<String> = Vec::new();
    proof {
        crate::codec::lemma_view_arr_len_index(xs@);
        assert(JsonValue::view_arr(xs@).subrange(0, 0) =~= Seq::<SpecJson>::empty());
        assert(str_views(r@) =~= string_items(JsonValue::view_arr(xs@).subrange(0, 0)));
    }
    let mut i: usize = 0;
    while i < n
        invariant
            i <= n,
            n == xs@.len(),
            JsonValue::view_arr(xs@).len() == n,
            forall|k: int|
                0 <= k < n ==> JsonValue::view_arr(xs@)[k] == #[trigger] xs@[k]@,
            str_views(r@) == string_items(JsonValue::view_arr(xs@).subrange(0, i as int)),
        decreases n - i,
    {
        let ghost w = JsonValue::view_arr(xs@);
        proof {
            assert(w.subrange(0, i as int + 1).subrange(0, i as int) =~= w.subrange(
                0,
                i as int,
            ));
            assert(w.subrange(0, i as int + 1)[i as int] == w[i as int]);
        }
        match &xs[i] {
            JsonValue::Str(s) => {
                let ghost pre = r@;
                r.push(s.clone());
                proof {
                    assert(str_views(r@) =~= str_views(pre) + seq![xs@[i as int]@->Str_0]);
                }
            },
            _ => {
                proof {
                    assert(str_views(r@) =~= string_items(w.subrange(0, i as int + 1)));
                }
            },
        }
        i += 1;
    }
    proof {
        assert(JsonValue::view_arr(xs@).subrange(0, n as int) =~= JsonValue::view_arr(xs@));
    }
    r
}

fn str_starts_with(s: &str, p: &str) -> (b: bool)
    ensures
        b == spec_starts_with(s@, p@),
{
    let sl = s.unicode_len();
    let pl = p.unicode_len();
    if pl > sl {
        return false;
    }
    let mut i: usize = 0;
    while i < pl
        invariant
            i <= pl,
            pl == p@.len(),
            sl == s@.len(),
            pl <= sl,
            forall|k: int| 0 <= k < i ==> s@[k] == p@[k],
        decreases pl - i,
    {
        if s.get_char(i) != p.get_char(i) {
            proof {
                assert(s@.subrange(0, pl as int)[i as int] == s@[i as int]);
            }
            return false;
        }
        i += 1;
    }
    proof {
        assert(s@.subrange(0, pl as int) =~= p@);
    }
    true
}

// ---------------------------------------------------------------------------
// Dispatch
// ---------------------------------------------------------------------------

/// Where a call to the named tool leads: a planned invocation, or the error
/// its arguments earn.
pub open spec fn spec_dispatch_call(env: SpecRequest) -> SpecStep {
    match param_str(env.params, "name"@) {
        None => SpecStep::Respond(spec_error_resp(-1, "Missing name parameter"@, env.id)),
        Some(name) => {
            if name == "search"@ {
                match arg_str(env.params, "query"@) {
                    Some(q) => SpecStep::Invoke(
                        SpecAction::Search {
                            query: q,
                            context: match arg_str(env.params, "context"@) {
                                Some(c) => c,
                                None => "documentation"@,
                            },
                            limit: 5,
                        },
                        env.id,
                    ),
                    None => SpecStep::Respond(
                        spec_error_resp(-1, "Missing query parameter"@, env.id),
                    ),
                }
            } else if name == "filesystem_read"@ {
                match arg_str(env.params, "path"@) {
                    Some(p) => SpecStep::Invoke(SpecAction::ReadFile { path: p }, env.id),
                    None => SpecStep::Respond(
                        spec_error_resp(-1, "Missing path parameter"@, env.id),
                    ),
                }
            } else if name == "index_repo"@ {
                match arg_str(env.params, "repo_id"@) {
                    None => SpecStep::Respond(
                        spec_error_resp(-1, "Missing repo_id parameter"@, env.id),
                    ),
                    Some(rid) => match arg_arr(env.params, "files"@) {
                        Some(xs) => SpecStep::Invoke(
                            SpecAction::IndexRepo { repo_id: rid, files: string_items(xs) },
                            env.id,
                        ),
                        None => SpecStep::Respond(
                            spec_error_resp(-1, "Missing files parameter as array"@, env.id),
                        ),
                    },
                }
            } else if name == "initialize_context"@ {
                match arg_str(env.params, "repo_path"@) {
                    Some(rp) => SpecStep::Invoke(
                        SpecAction::InitializeContext {
                            repo_path: rp,
                            include_docs: arg_bool_or(env.params, "include_docs"@, true),
                            include_code: arg_bool_or(env.params, "include_code"@, true),
                        },
                        env.id,
                    ),
                    None => SpecStep::Respond(
                        spec_error_resp(-1, "Missing repo_path parameter"@, env.id),
                    ),
                }
            } else {
                SpecStep::Respond(
                    spec_error_resp(-32000, "Unknown tool: "@ + name, env.id),
                )
            }
        },
    }
}

/// Where a resource read leads.
pub open spec fn spec_dispatch_read(env: SpecRequest) -> SpecStep {
    match param_str(env.params, "uri"@) {
        None => SpecStep::Respond(spec_error_resp(-1, "Missing uri parameter"@, env.id)),
        Some(uri) => {
            if spec_starts_with(uri, "cerebus-rex://docs"@) {
                SpecStep::Respond(
                    spec_success(
                        SpecJson::Obj(
                            seq![
                                (
                                    "content"@,
                                    SpecJson::Str("Documentation content from RAG system"@),
                                ),
                            ],
                        ),
                        env.id,
                    ),
                )
            } else if spec_starts_with(uri, "cerebus-rex://code"@) {
                SpecStep::Respond(
                    spec_success(
                        SpecJson::Obj(
                            seq![("content"@, SpecJson::Str("Code content from repository"@))],
                        ),
                        env.id,
                    ),
                )
            } else {
                SpecStep::Respond(
                    spec_error_resp(-32000, "Resource not found: "@ + uri, env.id),
                )
            }
        },
    }
}

/// Where a prompt fetch leads.
pub open spec fn spec_dispatch_prompt(env: SpecRequest) -> SpecStep {
    match param_str(env.params, "name"@) {
        None => SpecStep::Respond(spec_error_resp(-1, "Missing name parameter"@, env.id)),
        Some(name) => {
            if name == "code_search"@ {
                SpecStep::Respond(spec_success(spec_code_search_prompt_json(), env.id))
            } else {
                SpecStep::Respond(spec_error_resp(-32000, "Prompt not found: "@ + name, env.id))
            }
        },
    }
}

/// Where one received message leads: exactly one response or one invocation,
/// per the method catalogue. Malformed text earns the parse error with the
/// best-effort id; an unknown method is refused.
pub open spec fn spec_dispatch(d: Result<SpecRequest, Option<Seq<char>>>) -> SpecStep {
    match d {
        Err(id) => SpecStep::Respond(spec_error_resp(-32700, "Invalid JSON"@, id)),
        Ok(env) => {
            let m = env.method;
            if m == "tools/list"@ {
                SpecStep::Respond(spec_success(spec_tools_json(), env.id))
            } else if m == "tools/call"@ {
                spec_dispatch_call(env)
            } else if m == "resources/list"@ {
                SpecStep::Respond(spec_success(spec_resources_json(), env.id))
            } else if m == "resources/read"@ {
                spec_dispatch_read(env)
            } else if m == "prompts/list"@ {
                SpecStep::Respond(spec_success(spec_prompts_json(), env.id))
            } else if m == "prompts/get"@ {
                spec_dispatch_prompt(env)
            } else if m == "server/info"@ {
                SpecStep::Respond(spec_success(spec_server_info_json(), env.id))
            } else {
                SpecStep::Respond(spec_error_resp(-32601, "Method not found: "@ + m, env.id))
            }
        },
    }
}

/// The `arguments` member of the parameters: absent counts as absent, an
/// object is taken whole, anything else fails resolution.
pub open spec fn args_member(params: Option<SpecJson>) -> Option<
    Option<Seq<(Seq<char>, SpecJson)>>,
> {
    match params {
        Some(p) => match spec_get(p, "arguments"@) {
            None => Some(None),
            Some(SpecJson::Obj(ps)) => Some(Some(ps)),
            Some(_) => None,
        },
        None => Some(None),
    }
}

/// The method variant an envelope resolves to: the closed catalogue, with
/// the fields each variant requires; anything else fails.
pub open spec fn spec_resolve(env: SpecRequest) -> Option<SpecMethodRequest> {
    let m = env.method;
    if m == "tools/list"@ {
        Some(SpecMethodRequest::ListTools)
    } else if m == "tools/call"@ {
        match (param_str(env.params, "name"@), args_member(env.params)) {
            (Some(name), Some(arguments)) => Some(
                SpecMethodRequest::CallTool { name, arguments },
            ),
            _ => None,
        }
    } else if m == "resources/list"@ {
        Some(SpecMethodRequest::ListResources)
    } else if m == "resources/read"@ {
        match param_str(env.params, "uri"@) {
            Some(uri) => Some(SpecMethodRequest::ReadResource { uri }),
            None => None,
        }
    } else if m == "prompts/list"@ {
        Some(SpecMethodRequest::ListPrompts)
    } else if m == "prompts/get"@ {
        match (param_str(env.params, "name"@), args_member(env.params)) {
            (Some(name), Some(arguments)) => Some(
                SpecMethodRequest::GetPrompt { name, arguments },
            ),
            _ => None,
        }
    } else if m == "server/info"@ {
        Some(SpecMethodRequest::GetServerInfo)
    } else {
        None
    }
}

fn get_args_member(params: &Option<JsonValue>) -> (r: Option<Option<Vec<(String, JsonValue)>>>)
    ensures
        match r {
            Some(Some(a)) => args_member(opt_view(*params)) == Some(
                Some(JsonValue::view_obj(a@)),
            ),
            Some(None) => args_member(opt_view(*params)) == Some(
                Option::<Seq<(Seq<char>, SpecJson)>>::None,
            ),
            None => args_member(opt_view(*params)) is None,
        },
{
    match params {
        Some(p) => match p.get("arguments") {
            None => Some(None),
            Some(JsonValue::Obj(ps)) => Some(Some(crate::json::clone_obj(ps))),
            Some(_) => None,
        },
        None => Some(None),
    }
}

/// Resolves an envelope to its method variant, as the closed catalogue has
/// it; an unknown method or missing required field resolves to nothing.
pub fn resolve_method(env: &crate::protocol::McpRequest) -> (r: Option<McpRequest>)
    ensures
        match r {
            Some(v) => spec_resolve(env@) == Some(v@),
            None => spec_resolve(env@) is None,
        },
{
    let m = env.method.as_str();
    if str_eq(m, "tools/list") {
        Some(McpRequest::ListTools)
    } else if str_eq(m, "tools/call") {
        match (get_param_str(&env.params, "name"), get_args_member(&env.params)) {
            (Some(name), Some(arguments)) => Some(McpRequest::CallTool { name, arguments }),
            _ => None,
        }
    } else if str_eq(m, "resources/list") {
        Some(McpRequest::ListResources)
    } else if str_eq(m, "resources/read") {
        match get_param_str(&env.params, "uri") {
            Some(uri) => Some(McpRequest::ReadResource { uri }),
            None => None,
        }
    } else if str_eq(m, "prompts/list") {
        Some(McpRequest::ListPrompts)
    } else if str_eq(m, "prompts/get") {
        match (get_param_str(&env.params, "name"), get_args_member(&env.params)) {
            (Some(name), Some(arguments)) => Some(McpRequest::GetPrompt { name, arguments }),
            _ => None,
        }
    } else if str_eq(m, "server/info") {
        Some(McpRequest::GetServerInfo)
    } else {
        None
    }
}

/// Plans a tool call: validates the arguments and names the collaborator
/// invocation, or answers with the error the arguments earn.
pub fn call_tool(env: &crate::protocol::McpRequest) -> (r: DispatchStep)
    ensures
        r@ == spec_dispatch_call(env@),
{
    let id = match &env.id {
        Some(i) => Some(i.clone()),
        None => None,
    };
    let name = match get_param_str(&env.params, "name") {
        Some(n) => n,
        None => {
            return DispatchStep::Respond(
                McpResponse::Error {
                    error: McpError { code: -1, message: "Missing name parameter".to_owned() },
                    id,
                },
            );
        },
    };
    if str_eq(name.as_str(), "search") {
        match get_arg_str(&env.params, "query") {
            Some(query) => {
                let context = match get_arg_str(&env.params, "context") {
                    Some(c) => c,
                    None => "documentation".to_owned(),
                };
                DispatchStep::Invoke {
                    action: ToolAction::Search { query, context, limit: 5 },
                    id,
                }
            },
            None => DispatchStep::Respond(
                McpResponse::Error {
                    error: McpError { code: -1, message: "Missing query parameter".to_owned() },
                    id,
                },
            ),
        }
    } else if str_eq(name.as_str(), "filesystem_read") {
        match get_arg_str(&env.params, "path") {
            Some(path) => DispatchStep::Invoke { action: ToolAction::ReadFile { path }, id },
            None => DispatchStep::Respond(
                McpResponse::Error {
                    error: McpError { code: -1, message: "Missing path parameter".to_owned() },
                    id,
                },
            ),
        }
    } else if str_eq(name.as_str(), "index_repo") {
        let repo_id = match get_arg_str(&env.params, "repo_id") {
            Some(rid) => rid,
            None => {
                return DispatchStep::Respond(
                    McpResponse::Error {
                        error: McpError {
                            code: -1,
                            message: "Missing repo_id parameter".to_owned(),
                        },
                        id,
                    },
                );
            },
        };
        match get_arg(&env.params, "files") {
            Some(JsonValue::Arr(xs)) => {
                let files = string_items_exec(xs);
                DispatchStep::Invoke { action: ToolAction::IndexRepo { repo_id, files }, id }
            },
            _ => DispatchStep::Respond(
                McpResponse::Error {
                    error: McpError {
                        code: -1,
                        message: "Missing files parameter as array".to_owned(),
                    },
                    id,
                },
            ),
        }
    } else if str_eq(name.as_str(), "initialize_context") {
        match get_arg_str(&env.params, "repo_path") {
            Some(repo_path) => {
                let include_docs = get_arg_bool_or(&env.params, "include_docs", true);
                let include_code = get_arg_bool_or(&env.params, "include_code", true);
                DispatchStep::Invoke {
                    action: ToolAction::InitializeContext {
                        repo_path,
                        include_docs,
                        include_code,
                    },
                    id,
                }
            },
            None => DispatchStep::Respond(
                McpResponse::Error {
                    error: McpError {
                        code: -1,
                        message: "Missing repo_path parameter".to_owned(),
                    },
                    id,
                },
            ),
        }
    } else {
        DispatchStep::Respond(
            McpResponse::Error {
                error: McpError {
                    code: -32000,
                    message: "Unknown tool: ".to_owned().concat(name.as_str()),
                },
                id,
            },
        )
    }
}

impl CerebusRexMcpServer {
    pub fn new(
        rag_client: RagClient,
        search_tool: SearchTool,
        filesystem_tool: FilesystemTool,
        context_tool: ThreadsafeCodeContextTool,
    ) -> (r: Self)
        ensures
            r.rag_client == rag_client,
            r.search_tool == search_tool,
            r.context_tool == context_tool,
    {
        Self { rag_client, search_tool, filesystem_tool, context_tool }
    }

    /// One received message, taken to its dispatch step: exactly one response
    /// or one collaborator invocation.
    pub fn handle_request(&self, text: &str) -> (r: DispatchStep)
        requires
            text@.len() < 0x1000_0000_0000_0000,
        ensures
            r@ == spec_dispatch(crate::protocol::spec_decode_request(text@)),
    {
        let env = match crate::protocol::decode_request(text) {
            Err(id) => {
                return DispatchStep::Respond(
                    McpResponse::Error {
                        error: McpError { code: -32700, message: "Invalid JSON".to_owned() },
                        id,
                    },
                );
            },
            Ok(env) => env,
        };
        let id = match &env.id {
            Some(i) => Some(i.clone()),
            None => None,
        };
        let m = env.method.as_str();
        if str_eq(m, "tools/list") {
            DispatchStep::Respond(McpResponse::Success { result: tools_json(), id })
        } else if str_eq(m, "tools/call") {
            call_tool(&env)
        } else if str_eq(m, "resources/list") {
            DispatchStep::Respond(McpResponse::Success { result: resources_json(), id })
        } else if str_eq(m, "resources/read") {
            match get_param_str(&env.params, "uri") {
                None => DispatchStep::Respond(
                    McpResponse::Error {
                        error: McpError { code: -1, message: "Missing uri parameter".to_owned() },
                        id,
                    },
                ),
                Some(uri) => match self.read_resource(uri.as_str()) {
                    Ok(content) => DispatchStep::Respond(
                        McpResponse::Success {
                            result: obj1("content", JsonValue::Str(content)),
                            id,
                        },
                    ),
                    Err(e) => DispatchStep::Respond(
                        McpResponse::Error { error: McpError { code: -32000, message: e }, id },
                    ),
                },
            }
        } else if str_eq(m, "prompts/list") {
            DispatchStep::Respond(McpResponse::Success { result: prompts_json(), id })
        } else if str_eq(m, "prompts/get") {
            match get_param_str(&env.params, "name") {
                None => DispatchStep::Respond(
                    McpResponse::Error {
                        error: McpError {
                            code: -1,
                            message: "Missing name parameter".to_owned(),
                        },
                        id,
                    },
                ),
                Some(name) => {
                    if str_eq(name.as_str(), "code_search") {
                        DispatchStep::Respond(
                            McpResponse::Success { result: code_search_prompt_json(), id },
                        )
                    } else {
                        DispatchStep::Respond(
                            McpResponse::Error {
                                error: McpError {
                                    code: -32000,
                                    message: "Prompt not found: ".to_owned().concat(
                                        name.as_str(),
                                    ),
                                },
                                id,
                            },
                        )
                    }
                },
            }
        } else if str_eq(m, "server/info") {
            DispatchStep::Respond(McpResponse::Success { result: server_info_json(), id })
        } else {
            DispatchStep::Respond(
                McpResponse::Error {
                    error: McpError {
                        code: -32601,
                        message: "Method not found: ".to_owned().concat(m),
                    },
                    id,
                },
            )
        }
    }

    /// The static content a resource uri reads as; unknown uris are refused.
    pub fn read_resource(&self, uri: &str) -> (r: Result<String, String>)
        ensures
            spec_starts_with(uri@, "cerebus-rex://docs"@) ==> (r matches Ok(c) && c@
                == "Documentation content from RAG system"@),
            !spec_starts_with(uri@, "cerebus-rex://docs"@) && spec_starts_with(
                uri@,
                "cerebus-rex://code"@,
            ) ==> (r matches Ok(c) && c@ == "Code content from repository"@),
            !spec_starts_with(uri@, "cerebus-rex://docs"@) && !spec_starts_with(
                uri@,
                "cerebus-rex://code"@,
            ) ==> (r matches Err(e) && e@ == "Resource not found: "@ + uri@),
    {
        if str_starts_with(uri, "cerebus-rex://docs") {
            Ok("Documentation content from RAG system".to_owned())
        } else if str_starts_with(uri, "cerebus-rex://code") {
            Ok("Code content from repository".to_owned())
        } else {
            Err("Resource not found: ".to_owned().concat(uri))
        }
    }
}

// ---------------------------------------------------------------------------
// Tool outcomes
// ---------------------------------------------------------------------------

/// One search hit written for the caller.
pub open spec fn spec_search_entry(r: SearchResult) -> Seq<char> {
    "- Source: "@ + r.source@ + "\n  Content: "@ + r.content@ + "\n  Score: "@ + crate::json::dec_digits(
        r.score as nat,
    ) + "\n\n"@
}

/// The text block a search's hits are written as.
pub open spec fn spec_search_output(rs: Seq<SearchResult>) -> Seq<char>
    decreases rs.len(),
{
    if rs.len() == 0 {
        Seq::empty()
    } else {
        spec_search_output(rs.subrange(0, rs.len() - 1)) + spec_search_entry(rs[rs.len() - 1])
    }
}

/// The text block a search's hits are written as.
pub fn search_output(results: &Vec<SearchResult>) -> (r: JsonValue)
    ensures
        r@ == SpecJson::Str(spec_search_output(results@)),
{
    let n = results.len();
    let mut out = String::new();
    proof {
        assert(results@.subrange(0, 0) =~= Seq::<SearchResult>::empty());
    }
    let mut i: usize = 0;
    while i < n
        invariant
            i <= n,
            n == results@.len(),
            out@ == spec_search_output(results@.subrange(0, i as int)),
        decreases n - i,
    {
        proof {
            let pre = results@.subrange(0, i as int);
            let nxt = results@.subrange(0, i as int + 1);
            assert(nxt.subrange(0, nxt.len() - 1) =~= pre);
            assert(nxt[nxt.len() - 1] == results@[i as int]);
        }
        out.append("- Source: ");
        out.append(results[i].source.as_str());
        out.append("\n  Content: ");
        out.append(results[i].content.as_str());
        out.append("\n  Score: ");
        crate::codec::push_int(results[i].score as i64, &mut out);
        out.append("\n\n");
        proof {
            assert(crate::json::spec_encode_int(results@[i as int].score as int)
                == crate::json::dec_digits(results@[i as int].score as nat));
            assert(out@ =~= spec_search_output(results@.subrange(0, i as int))
                + spec_search_entry(results@[i as int]));
        }
        i += 1;
    }
    proof {
        assert(results@.subrange(0, n as int) =~= results@);
    }
    JsonValue::Str(out)
}

/// The wire object an index run answers with.
pub fn index_repo_result(repo_id: &str) -> (r: JsonValue)
    ensures
        r@ == SpecJson::Obj(
            seq![
                ("status"@, SpecJson::Str("indexed"@)),
                ("repo_id"@, SpecJson::Str(repo_id@)),
            ],
        ),
{
    obj2("status", jstr("indexed"), "repo_id", jstr(repo_id))
}

/// The candidate files a context initialisation looks at under the
/// repository: the common documentation files, then the common code files.
pub open spec fn spec_candidates(repo: Seq<char>, docs: bool, code: bool) -> Seq<Seq<char>> {
    (if docs {
        seq![
            repo + "/README.md"@,
            repo + "/CHANGELOG.md"@,
            repo + "/CONTRIBUTING.md"@,
            repo + "/LICENSE"@,
        ]
    } else {
        Seq::empty()
    }) + (if code {
        seq![repo + "/src/main.rs"@, repo + "/src/lib.rs"@]
    } else {
        Seq::empty()
    })
}

/// The candidate files a context initialisation looks at.
pub fn initialize_candidates(repo_path: &str, include_docs: bool, include_code: bool) -> (r: Vec<
    String,
>)
    ensures
        str_views(r@) == spec_candidates(repo_path@, include_docs, include_code),
{
    let mut r: Vec<String> = Vec::new();
    if include_docs {
        r.push(repo_path.to_owned().concat("/README.md"));
        r.push(repo_path.to_owned().concat("/CHANGELOG.md"));
        r.push(repo_path.to_owned().concat("/CONTRIBUTING.md"));
        r.push(repo_path.to_owned().concat("/LICENSE"));
    }
    if include_code {
        r.push(repo_path.to_owned().concat("/src/main.rs"));
        r.push(repo_path.to_owned().concat("/src/lib.rs"));
    }
    proof {
        assert(str_views(r@) =~= spec_candidates(repo_path@, include_docs, include_code));
    }
    r
}

/// The wire object a context initialisation answers with.
pub fn initialize_context_result(
    repo_id: &str,
    indexed_files_count: usize,
    include_docs: bool,
    include_code: bool,
) -> (r: JsonValue)
    requires
        indexed_files_count <= 0x7fff_ffff_ffff_ffff,
    ensures
        r@ == SpecJson::Obj(
            seq![
                ("status"@, SpecJson::Str("context_initialized"@)),
                ("repo_id"@, SpecJson::Str(repo_id@)),
                ("indexed_files_count"@, SpecJson::Int(indexed_files_count as int)),
                ("included_docs"@, SpecJson::Bool(include_docs)),
                ("included_code"@, SpecJson::Bool(include_code)),
                (
                    "message"@,
                    SpecJson::Str(
                        "Context initialized successfully. Repository indexed for semantic search."@,
                    ),
                ),
            ],
        ),
{
    let mut ms: Vec<(String, JsonValue)> = Vec::new();
    proof {
        assert(JsonValue::view_obj(ms@) =~= Seq::<(Seq<char>, SpecJson)>::empty());
    }
    push_member(&mut ms, "status".to_owned(), jstr("context_initialized"));
    push_member(&mut ms, "repo_id".to_owned(), jstr(repo_id));
    push_member(
        &mut ms,
        "indexed_files_count".to_owned(),
        JsonValue::Int(indexed_files_count as i64),
    );
    push_member(&mut ms, "included_docs".to_owned(), JsonValue::Bool(include_docs));
    push_member(&mut ms, "included_code".to_owned(), JsonValue::Bool(include_code));
    push_member(
        &mut ms,
        "message".to_owned(),
        jstr("Context initialized successfully. Repository indexed for semantic search."),
    );
    proof {
        assert(JsonValue::view_obj(ms@) =~= seq![
            ("status"@, SpecJson::Str("context_initialized"@)),
            ("repo_id"@, SpecJson::Str(repo_id@)),
            ("indexed_files_count"@, SpecJson::Int(indexed_files_count as int)),
            ("included_docs"@, SpecJson::Bool(include_docs)),
            ("included_code"@, SpecJson::Bool(include_code)),
            (
                "message"@,
                SpecJson::Str(
                    "Context initialized successfully. Repository indexed for semantic search."@,
                ),
            ),
        ]);
    }
    JsonValue::Obj(ms)
}

/// The one response a finished tool call earns: its value under `content`,
/// or the application error.
pub fn finish_tool_call(outcome: Result<JsonValue, String>, id: Option<String>) -> (r:
    McpResponse)
    ensures
        match outcome {
            Ok(v) => r@ == spec_success(
                SpecJson::Obj(seq![("content"@, v@)]),
                match id {
                    Some(i) => Some(i@),
                    None => None,
                },
            ),
            Err(e) => r@ == spec_error_resp(
                -32000,
                e@,
                match id {
                    Some(i) => Some(i@),
                    None => None,
                },
            ),
        },
{
    match outcome {
        Ok(v) => McpResponse::Success { result: obj1("content", v), id },
        Err(e) => McpResponse::Error { error: McpError { code: -32000, message: e }, id },
    }
}

impl CerebusRexMcpServer {
    /// The content a performed file read handed back, dug out of the
    /// filesystem tool's response.
    pub fn read_filesystem(&self, response: &FileOperationResponse) -> (r: Result<String, String>)
        ensures
            response.success ==> match response.data {
                Some(d) => match spec_get(d@, "content"@) {
                    Some(SpecJson::Str(c)) => r matches Ok(s) && s@ == c,
                    Some(_) => r matches Err(e) && e@ == "Invalid content format"@,
                    None => r matches Err(e) && e@ == "Missing content in response"@,
                },
                None => r matches Err(e) && e@ == "Unknown error in filesystem operation"@,
            },
            !response.success ==> (r matches Err(e) && e == response.message),
    {
        if response.success {
            match &response.data {
                Some(d) => match d.get("content") {
                    Some(JsonValue::Str(c)) => Ok(c.clone()),
                    Some(_) => Err("Invalid content format".to_owned()),
                    None => Err("Missing content in response".to_owned()),
                },
                None => Err("Unknown error in filesystem operation".to_owned()),
            }
        } else {
            Err(response.message.clone())
        }
    }

    /// The four built-in tools as discovery lists them.
    pub fn list_tools(&self) -> (r: Vec<Tool>)
        ensures
            r@.len() == 4,
            r@[0].name@ == "search"@,
            r@[0].description matches Some(d) && d@ == "Search documentation and code"@,
            r@[0].input_schema matches Some(s) && s@ == spec_search_schema(),
            r@[1].name@ == "filesystem_read"@,
            r@[1].description matches Some(d) && d@ == "Read a file from the filesystem"@,
            r@[1].input_schema matches Some(s) && s@ == spec_filesystem_schema(),
            r@[2].name@ == "index_repo"@,
            r@[2].description matches Some(d) && d@ == "Index repository files for quick access"@,
            r@[2].input_schema matches Some(s) && s@ == spec_index_schema(),
            r@[3].name@ == "initialize_context"@,
            r@[3].description matches Some(d) && d@
                == "Initialize AI agent context by indexing repository and documentation"@,
            r@[3].input_schema matches Some(s) && s@ == spec_init_schema(),
    {
        let mut r: Vec<Tool> = Vec::new();
        r.push(
            Tool {
                name: "search".to_owned(),
                description: Some("Search documentation and code".to_owned()),
                input_schema: Some(search_schema()),
            },
        );
        r.push(
            Tool {
                name: "filesystem_read".to_owned(),
                description: Some("Read a file from the filesystem".to_owned()),
                input_schema: Some(filesystem_schema()),
            },
        );
        r.push(
            Tool {
                name: "index_repo".to_owned(),
                description: Some("Index repository files for quick access".to_owned()),
                input_schema: Some(index_schema()),
            },
        );
        r.push(
            Tool {
                name: "initialize_context".to_owned(),
                description: Some(
                    "Initialize AI agent context by indexing repository and documentation".to_owned(),
                ),
                input_schema: Some(init_schema()),
            },
        );
        r
    }

    /// The two built-in resources as discovery lists them.
    pub fn list_resources(&self) -> (r: Vec<ResourceTemplate>)
        ensures
            r@.len() == 2,
            r@[0].uri_template@ == "cerebus-rex://docs"@,
            r@[0].name@ == "Documentation"@,
            r@[0].description matches Some(d) && d@ == "Documentation resources from RAG system"@,
            r@[1].uri_template@ == "cerebus-rex://code"@,
            r@[1].name@ == "Code"@,
            r@[1].description matches Some(d) && d@ == "Code resources from repository"@,
    {
        let mut r: Vec<ResourceTemplate> = Vec::new();
        r.push(
            ResourceTemplate {
                uri_template: "cerebus-rex://docs".to_owned(),
                name: "Documentation".to_owned(),
                description: Some("Documentation resources from RAG system".to_owned()),
            },
        );
        r.push(
            ResourceTemplate {
                uri_template: "cerebus-rex://code".to_owned(),
                name: "Code".to_owned(),
                description: Some("Code resources from repository".to_owned()),
            },
        );
        r
    }

    /// The one built-in prompt as discovery lists it.
    pub fn list_prompts(&self) -> (r: Vec<PromptTemplate>)
        ensures
            r@.len() == 1,
            r@[0].name@ == "code_search"@,
            r@[0].description matches Some(d) && d@ == "Search for code snippets"@,
            r@[0].parameters is Some,
    {
        let params = obj3(
            "type",
            jstr("object"),
            "properties",
            obj1("query", prop("string", "Search query")),
            "required",
            arr1(jstr("query")),
        );
        let mut r: Vec<PromptTemplate> = Vec::new();
        r.push(
            PromptTemplate {
                name: "code_search".to_owned(),
                description: Some("Search for code snippets".to_owned()),
                parameters: Some(params),
            },
        );
        r
    }

    /// The rendered prompt under a name; unknown names are refused.
    pub fn get_prompt(&self, name: &str) -> (r: Result<Prompt, String>)
        ensures
            name@ == "code_search"@ ==> (r matches Ok(p) && p.messages@.len() == 1
                && p.messages@[0].role@ == "user"@ && p.messages@[0].content@
                == "Search Results:\nCode search results here"@),
            name@ != "code_search"@ ==> (r matches Err(e) && e@ == "Prompt not found: "@
                + name@),
    {
        if str_eq(name, "code_search") {
            let mut messages: Vec<MessageContent> = Vec::new();
            messages.push(
                MessageContent {
                    role: "user".to_owned(),
                    content: "Search Results:\nCode search results here".to_owned(),
                },
            );
            Ok(Prompt { messages })
        } else {
            Err("Prompt not found: ".to_owned().concat(name))
        }
    }

    /// What the server says of itself: all six surfaces on.
    pub fn get_server_info(&self) -> (r: ServerInfo)
        ensures
            r.name@ == "Cerebus-Rex MCP Server"@,
            r.version@ == "0.1.0"@,
            r.capabilities.list_resources,
            r.capabilities.read_resource,
            r.capabilities.list_prompts,
            r.capabilities.get_prompt,
            r.capabilities.list_tools,
            r.capabilities.call_tool,
    {
        ServerInfo {
            name: "Cerebus-Rex MCP Server".to_owned(),
            version: "0.1.0".to_owned(),
            capabilities: Capabilities {
                list_resources: true,
                read_resource: true,
                list_prompts: true,
                get_prompt: true,
                list_tools: true,
                call_tool: true,
            },
        }
    }
}

/// A response converted to the shared envelope form.
pub fn to_envelope(r: &McpResponse) -> (p: crate::protocol::McpResponse)
    ensures
        p@ == r@,
{
    match r {
        McpResponse::Success { result, id } => crate::protocol::McpResponse {
            result: Some(result.clone()),
            error: None,
            id: match id {
                Some(i) => Some(i.clone()),
                None => None,
            },
        },
        McpResponse::Error { error, id } => crate::protocol::McpResponse {
            result: None,
            error: Some(
                crate::protocol::McpError { code: error.code, message: error.message.clone() },
            ),
            id: match id {
                Some(i) => Some(i.clone()),
                None => None,
            },
        },
    }
}

/// The canonical wire text of a response.
pub fn encode_server_response(r: &McpResponse) -> (s: String)
    ensures
        s@ == crate::protocol::spec_encode_response(r@),
{
    let p = to_envelope(r);
    crate::protocol::encode_response(&p)
}

} // verus!
