use vstd::prelude::*;

use crate::rag::{IndexDocRequest, RagClient, SearchQuery};
use crate::types::{SearchRequest as McpSearchRequest, SearchResult};
use crate::json::JsonValue;

verus! {

/// A search request as the tool surface takes it.
#[derive(Debug)]
pub struct SearchRequest {
    pub query: String,
    pub context: Option<String>,
    pub limit: Option<u32>,
}

/// The tool's answer: the hits, the query they answer, and how long the
/// collaborator took.
#[derive(Debug)]
pub struct SearchResponse {
    pub results: Vec<SearchResult>,
    pub query: String,
    pub took_ms: u64,
}

/// The search tool: it turns tool requests into planned collaborator queries
/// and wraps the collaborator's hits into a response.
#[derive(Debug)]
pub struct SearchTool {
    pub rag_client: RagClient,
}

impl SearchTool {
    pub fn new(rag_client: RagClient) -> (r: Self)
        ensures
            r.rag_client == rag_client,
    {
        Self { rag_client }
    }

    /// Plans the collaborator query for a request; refused while the client
    /// is not connected.
    pub fn execute(&self, request: &SearchRequest) -> (r: Result<SearchQuery, String>)
        ensures
            self.rag_client.connected <==> r is Ok,
            r matches Ok(q) ==> ({
                &&& q.collection@ == (match request.context {
                    Some(c) => c@,
                    None => "documentation"@,
                })
                &&& q.query@ == request.query@
                &&& q.limit == (match request.limit {
                    Some(l) => l,
                    None => 5u32,
                })
            }),
            r matches Err(e) ==> e@ == "Qdrant client not initialized"@,
    {
        let mcp_request = McpSearchRequest {
            query: request.query.clone(),
            context: match &request.context {
                Some(c) => Some(c.clone()),
                None => None,
            },
            limit: request.limit,
        };
        self.rag_client.search(&mcp_request)
    }

    /// Wraps the collaborator's hits into the tool's response.
    pub fn complete(&self, results: Vec<SearchResult>, query: String, took_ms: u64) -> (r:
        SearchResponse)
        ensures
            r.results == results,
            r.query == query,
            r.took_ms == took_ms,
    {
        SearchResponse { results, query, took_ms }
    }

    /// Plans the collaborator writes that index the repository files.
    pub fn index_repo_files(&self, repo_id: &str, files: Vec<(String, String)>) -> (r: Result<
        Vec<IndexDocRequest>,
        String,
    >)
        ensures
            files@.len() == 0 ==> (r matches Ok(ds) && ds@.len() == 0),
            files@.len() > 0 ==> (self.rag_client.connected <==> r is Ok),
            r matches Ok(ds) ==> ds@.len() == files@.len(),
            r matches Err(e) ==> e@ == "Qdrant client not initialized"@,
    {
        self.rag_client.index_repo_files(repo_id, files)
    }
}

} // verus!
