use vstd::prelude::*;

use crate::json::JsonValue;

verus! {

/// A named, schema-described operation the protocol can invoke.
#[derive(Debug)]
pub struct Tool {
    pub id: String,
    pub name: String,
    pub description: String,
    pub input_schema: Option<JsonValue>,
}

/// A search request handed to the vector-search collaborator.
#[derive(Debug)]
pub struct SearchRequest {
    pub query: String,
    pub context: Option<String>,
    pub limit: Option<u32>,
}

/// One hit from the search collaborator. The score is in hundredths, so a
/// hundred stands for a perfect match.
#[derive(Debug)]
pub struct SearchResult {
    pub id: String,
    pub content: String,
    pub source: String,
    pub score: u32,
    pub metadata: Option<Vec<(String, JsonValue)>>,
}

/// A request to index a batch of repository files.
#[derive(Debug)]
pub struct IndexRequest {
    pub repo_id: String,
    pub files: Vec<IndexedFile>,
}

/// One file in an index batch.
#[derive(Debug)]
pub struct IndexedFile {
    pub path: String,
    pub content: String,
    pub language: Option<String>,
    pub hash: String,
}

/// Context data an agent carries.
#[derive(Debug)]
pub struct AgentContext {
    pub id: String,
    pub name: String,
    pub data: Vec<(String, JsonValue)>,
    pub created_at: u64,
    pub updated_at: u64,
}

/// One registered agent: its server-assigned id, capabilities, liveness
/// timestamp and context.
#[derive(Debug)]
pub struct AgentSession {
    pub id: String,
    pub name: String,
    pub capabilities: Vec<String>,
    pub last_seen: u64,
    pub context: AgentContext,
}

} // verus!
