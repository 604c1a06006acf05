use vstd::prelude::*;

use crate::codec::push_char;
use crate::json::{JsonValue, SpecJson, push_member};
use crate::types::SearchRequest;

verus! {

/// One planned query against the vector-search collaborator.
#[derive(Debug)]
pub struct SearchQuery {
    pub collection: String,
    pub query: String,
    pub limit: u32,
}

/// One planned document write for the indexing collaborator.
#[derive(Debug)]
pub struct IndexDocRequest {
    pub collection: String,
    pub doc_id: String,
    pub content: String,
    pub metadata: Vec<(String, JsonValue)>,
}

/// The connection to the vector-search backend, modelled by what the routing
/// logic reads of it: its endpoint, whether it is connected, and the
/// collections it keeps. The backend itself is a collaborator outside this
/// core; these methods decide and plan, the caller performs.
#[derive(Debug)]
pub struct RagClient {
    pub connected: bool,
    pub endpoint: String,
    pub api_key: Option<String>,
    pub collections: Vec<String>,
}

/// A path with every slash turned into an underscore.
pub open spec fn replace_slashes(s: Seq<char>) -> Seq<char> {
    Seq::new(s.len(), |i: int| if s[i] == '/' { '_' } else { s[i] })
}

fn replace_slashes_exec(s: &str) -> (r: String)
    ensures
        r@ == replace_slashes(s@),
{
    let len = s.unicode_len();
    let mut out = String::new();
    let mut i: usize = 0;
    while i < len
        invariant
            i <= len,
            len == s@.len(),
            out@ == replace_slashes(s@).subrange(0, i as int),
        decreases len - i,
    {
        let c = s.get_char(i);
        if c == '/' {
            push_char(&mut out, '_');
        } else {
            push_char(&mut out, c);
        }
        proof {
            assert(out@ =~= replace_slashes(s@).subrange(0, i as int + 1));
        }
        i += 1;
    }
    proof {
        assert(replace_slashes(s@).subrange(0, len as int) =~= replace_slashes(s@));
    }
    out
}

impl RagClient {
    pub fn new(endpoint: String, api_key: Option<String>) -> (r: Self)
        ensures
            !r.connected,
            r.endpoint == endpoint,
            r.api_key == api_key,
            r.collections@.len() == 3,
            r.collections@[0]@ == "documentation"@,
            r.collections@[1]@ == "code"@,
            r.collections@[2]@ == "config"@,
    {
        let mut collections: Vec<String> = Vec::new();
        collections.push("documentation".to_owned());
        collections.push("code".to_owned());
        collections.push("config".to_owned());
        Self { connected: false, endpoint, api_key, collections }
    }

    /// Marks the client connected and hands back the collections the caller
    /// must have the backend provision.
    pub fn initialize(&mut self) -> (r: Vec<String>)
        ensures
            final(self).connected,
            final(self).endpoint == old(self).endpoint,
            final(self).api_key == old(self).api_key,
            final(self).collections@ == old(self).collections@,
            r@ == old(self).collections@,
    {
        self.connected = true;
        let n = self.collections.len();
        let mut r: Vec<String> = Vec::new();
        let mut i: usize = 0;
        while i < n
            invariant
                i <= n,
                n == self.collections@.len(),
                r@ == self.collections@.subrange(0, i as int),
                *self == old(self).spec_set_connected(),
            decreases n - i,
        {
            r.push(self.collections[i].clone());
            proof {
                assert(r@ =~= self.collections@.subrange(0, i as int + 1));
            }
            i += 1;
        }
        proof {
            assert(self.collections@.subrange(0, n as int) =~= self.collections@);
        }
        r
    }

    /// The model of this client once connected.
    pub open spec fn spec_set_connected(self) -> RagClient {
        RagClient {
            connected: true,
            endpoint: self.endpoint,
            api_key: self.api_key,
            collections: self.collections,
        }
    }

    /// Plans a semantic search: the collection is the requested context, or
    /// the documentation by default, and the limit defaults to five results.
    /// Refused while not connected.
    pub fn search(&self, request: &SearchRequest) -> (r: Result<SearchQuery, String>)
        ensures
            self.connected <==> r is Ok,
            r matches Ok(q) ==> ({
                &&& q.collection@ == (match request.context {
                    Some(c) => c@,
                    None => "documentation"@,
                })
                &&& q.query@ == request.query@
                &&& q.limit == (match request.limit {
                    Some(l) => l,
                    None => 5u32,
                })
            }),
            r matches Err(e) ==> e@ == "Qdrant client not initialized"@,
    {
        if !self.connected {
            return Err("Qdrant client not initialized".to_owned());
        }
        let collection = match &request.context {
            Some(c) => c.clone(),
            None => "documentation".to_owned(),
        };
        let limit = match request.limit {
            Some(l) => l,
            None => 5,
        };
        Ok(SearchQuery { collection, query: request.query.clone(), limit })
    }

    /// Decides whether a single document write may proceed: it may exactly
    /// while connected.
    pub fn index_document(
        &self,
        collection_name: &str,
        id: &str,
        content: &str,
    ) -> (r: Result<(), String>)
        ensures
            self.connected <==> r is Ok,
            r matches Err(e) ==> e@ == "Qdrant client not initialized"@,
    {
        if self.connected {
            Ok(())
        } else {
            Err("Qdrant client not initialized".to_owned())
        }
    }

    /// Plans one document write per repository file: the id joins the
    /// repository id and the path with slashes flattened, and the metadata
    /// names both. Refused while not connected, unless there is nothing to
    /// write.
    pub fn index_repo_files(&self, repo_id: &str, files: Vec<(String, String)>) -> (r: Result<
        Vec<IndexDocRequest>,
        String,
    >)
        ensures
            files@.len() == 0 ==> (r matches Ok(ds) && ds@.len() == 0),
            files@.len() > 0 ==> (self.connected <==> r is Ok),
            r matches Ok(ds) ==> ds@.len() == files@.len() && forall|k: int|
                0 <= k < files@.len() ==> {
                    let d = #[trigger] ds@[k];
                    &&& d.collection@ == "code"@
                    &&& d.doc_id@ == repo_id@ + "-"@ + replace_slashes(files@[k].0@)
                    &&& d.content == files@[k].1
                    &&& JsonValue::view_obj(d.metadata@) == seq![
                        ("repo_id"@, SpecJson::Str(repo_id@)),
                        ("file_path"@, SpecJson::Str(files@[k].0@)),
                    ]
                },
            r matches Err(e) ==> e@ == "Qdrant client not initialized"@,
    {
        let n = files.len();
        if n > 0 && !self.connected {
            return Err("Qdrant client not initialized".to_owned());
        }
        let mut ds: Vec<IndexDocRequest> = Vec::new();
        let mut i: usize = 0;
        while i < n
            invariant
                i <= n,
                n == files@.len(),
                ds@.len() == i,
                forall|k: int|
                    0 <= k < i ==> {
                        let d = #[trigger] ds@[k];
                        &&& d.collection@ == "code"@
                        &&& d.doc_id@ == repo_id@ + "-"@ + replace_slashes(files@[k].0@)
                        &&& d.content == files@[k].1
                        &&& JsonValue::view_obj(d.metadata@) == seq![
                            ("repo_id"@, SpecJson::Str(repo_id@)),
                            ("file_path"@, SpecJson::Str(files@[k].0@)),
                        ]
                    },
            decreases n - i,
        {
            let path = files[i].0.clone();
            let flat = replace_slashes_exec(path.as_str());
            let doc_id = repo_id.to_owned().concat("-").concat(flat.as_str());
            let mut metadata: Vec<(String, JsonValue)> = Vec::new();
            proof {
                assert(JsonValue::view_obj(metadata@) =~= Seq::<(Seq<char>, SpecJson)>::empty());
                reveal_strlit("-");
                assert(doc_id@ =~= repo_id@ + "-"@ + replace_slashes(files@[i as int].0@));
            }
            push_member(&mut metadata, "repo_id".to_owned(), JsonValue::Str(repo_id.to_owned()));
            push_member(&mut metadata, "file_path".to_owned(), JsonValue::Str(path));
            proof {
                assert(JsonValue::view_obj(metadata@) =~= seq![
                    ("repo_id"@, SpecJson::Str(repo_id@)),
                    ("file_path"@, SpecJson::Str(files@[i as int].0@)),
                ]);
            }
            let content = files[i].1.clone();
            ds.push(IndexDocRequest { collection: "code".to_owned(), doc_id, content, metadata });
            i += 1;
        }
        Ok(ds)
    }

    /// Decides whether a document read may proceed: it may exactly while
    /// connected, and then names the placeholder content the collaborator
    /// stands in for.
    pub fn get_document(&self, collection_name: &str, id: &str) -> (r: Result<
        Option<String>,
        String,
    >)
        ensures
            self.connected <==> r is Ok,
            r matches Ok(c) ==> c matches Some(s) && s@ == "Content of document "@ + id@,
            r matches Err(e) ==> e@ == "Qdrant client not initialized"@,
    {
        if self.connected {
            Ok(Some("Content of document ".to_owned().concat(id)))
        } else {
            Err("Qdrant client not initialized".to_owned())
        }
    }
}

impl Default for RagClient {
    /// A disconnected client against the default local endpoint.
    fn default() -> (r: Self)
        ensures
            !r.connected,
            r.endpoint@ == "http://localhost:6333"@,
            r.api_key is None,
            r.collections@.len() == 3,
            r.collections@[0]@ == "documentation"@,
            r.collections@[1]@ == "code"@,
            r.collections@[2]@ == "config"@,
    {
        Self::new("http://localhost:6333".to_owned(), None)
    }
}

} // verus!
