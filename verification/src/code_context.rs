use vstd::prelude::*;

use crate::json::{
    JsonValue, SpecJson, clone_obj, clone_value, merge_members, push_member, spec_merge, str_eq,
};

verus! {

/// One context operation: which operation, the key, and for writes the value
/// and optional metadata.
#[derive(Debug)]
pub struct CodeContextRequest {
    pub operation: String,
    pub key: String,
    pub value: Option<JsonValue>,
    pub metadata: Option<Vec<(String, JsonValue)>>,
}

/// The outcome of a context operation.
#[derive(Debug)]
pub struct CodeContextResponse {
    pub success: bool,
    pub message: String,
    pub data: Option<JsonValue>,
}

/// One stored context entry: a unique key, its value, and its metadata.
#[derive(Debug)]
pub struct ContextEntry {
    pub key: String,
    pub value: JsonValue,
    pub metadata: Vec<(String, JsonValue)>,
}

/// The position of the first entry with the given key, or a negative value.
pub open spec fn store_find(s: Seq<ContextEntry>, k: Seq<char>) -> int
    decreases s.len(),
{
    if s.len() == 0 {
        -1
    } else if s[0].key@ == k {
        0
    } else {
        let r = store_find(s.subrange(1, s.len() as int), k);
        if r < 0 {
            -1
        } else {
            r + 1
        }
    }
}

/// The merged value an update leaves: a shallow union when both the existing
/// and the incoming value are objects, else the incoming value alone.
pub open spec fn spec_update_value(old_v: SpecJson, new_v: SpecJson) -> SpecJson {
    match (old_v, new_v) {
        (SpecJson::Obj(a), SpecJson::Obj(b)) => SpecJson::Obj(spec_merge(a, b)),
        _ => new_v,
    }
}

proof fn lemma_store_find_first(s: Seq<ContextEntry>, k: Seq<char>, i: int)
    requires
        0 <= i < s.len(),
        forall|m: int| 0 <= m < i ==> (#[trigger] s[m]).key@ != k,
        s[i].key@ == k,
    ensures
        store_find(s, k) == i,
    decreases i,
{
    if i > 0 {
        let tail = s.subrange(1, s.len() as int);
        assert forall|m: int| 0 <= m < i - 1 implies (#[trigger] tail[m]).key@ != k by {
            assert(tail[m] == s[m + 1]);
        }
        assert(tail[i - 1] == s[i]);
        lemma_store_find_first(tail, k, i - 1);
    }
}

proof fn lemma_store_find_none(s: Seq<ContextEntry>, k: Seq<char>)
    requires
        forall|m: int| 0 <= m < s.len() ==> (#[trigger] s[m]).key@ != k,
    ensures
        store_find(s, k) == -1,
    decreases s.len(),
{
    if s.len() > 0 {
        let tail = s.subrange(1, s.len() as int);
        assert forall|m: int| 0 <= m < tail.len() implies (#[trigger] tail[m]).key@ != k by {
            assert(tail[m] == s[m + 1]);
        }
        lemma_store_find_none(tail, k);
    }
}

/// A store where every key stands at most once.
pub open spec fn store_keys_unique(s: Seq<ContextEntry>) -> bool {
    forall|i: int, j: int| 0 <= i < j < s.len() ==> (#[trigger] s[i]).key@ != (
    #[trigger] s[j]).key@
}

/// The wire object `{"key": <key>}` that write responses carry.
pub open spec fn spec_key_obj(key: Seq<char>) -> SpecJson {
    SpecJson::Obj(seq![("key"@, SpecJson::Str(key))])
}

/// What a lookup response must say of the store.
pub open spec fn get_post(store: Seq<ContextEntry>, key: Seq<char>, resp: CodeContextResponse) -> bool {
    let i = store_find(store, key);
    if i >= 0 {
        &&& resp.success
        &&& resp.message@ == "Context retrieved successfully"@
        &&& resp.data matches Some(d) && d@ == SpecJson::Obj(
            seq![
                ("key"@, SpecJson::Str(key)),
                ("value"@, store[i].value@),
                ("metadata"@, SpecJson::Obj(JsonValue::view_obj(store[i].metadata@))),
            ],
        )
    } else {
        &&& !resp.success
        &&& resp.message@ == "Context key not found: "@ + key
        &&& resp.data is None
    }
}

/// What a set must do: create the entry or overwrite it whole.
pub open spec fn set_post(
    old_store: Seq<ContextEntry>,
    new_store: Seq<ContextEntry>,
    key: Seq<char>,
    value: SpecJson,
    md: Seq<(Seq<char>, SpecJson)>,
    resp: CodeContextResponse,
) -> bool {
    let i = store_find(old_store, key);
    &&& if i >= 0 {
        &&& new_store.len() == old_store.len()
        &&& forall|m: int| 0 <= m < old_store.len() && m != i ==> #[trigger] new_store[m]
            == old_store[m]
        &&& new_store[i].key@ == key
        &&& new_store[i].value@ == value
        &&& JsonValue::view_obj(new_store[i].metadata@) == md
    } else {
        &&& new_store.len() == old_store.len() + 1
        &&& new_store.subrange(0, old_store.len() as int) == old_store
        &&& new_store.last().key@ == key
        &&& new_store.last().value@ == value
        &&& JsonValue::view_obj(new_store.last().metadata@) == md
    }
    &&& resp.success
    &&& resp.message@ == "Context set successfully"@
    &&& resp.data matches Some(d) && d@ == spec_key_obj(key)
}

/// What an update must do: merge into an existing entry, and refuse to create
/// one.
pub open spec fn update_post(
    old_store: Seq<ContextEntry>,
    new_store: Seq<ContextEntry>,
    key: Seq<char>,
    value: SpecJson,
    md: Option<Seq<(Seq<char>, SpecJson)>>,
    resp: CodeContextResponse,
) -> bool {
    let i = store_find(old_store, key);
    if i >= 0 {
        &&& new_store.len() == old_store.len()
        &&& forall|m: int| 0 <= m < old_store.len() && m != i ==> #[trigger] new_store[m]
            == old_store[m]
        &&& new_store[i].key@ == key
        &&& new_store[i].value@ == spec_update_value(old_store[i].value@, value)
        &&& JsonValue::view_obj(new_store[i].metadata@) == (match md {
            Some(m) => spec_merge(JsonValue::view_obj(old_store[i].metadata@), m),
            None => JsonValue::view_obj(old_store[i].metadata@),
        })
        &&& resp.success
        &&& resp.message@ == "Context updated successfully"@
        &&& resp.data matches Some(d) && d@ == spec_key_obj(key)
    } else {
        &&& new_store == old_store
        &&& !resp.success
        &&& resp.message@ == "Context key not found: "@ + key
        &&& resp.data is None
    }
}

/// What a clear must do: remove the entry when it is there.
pub open spec fn clear_post(
    old_store: Seq<ContextEntry>,
    new_store: Seq<ContextEntry>,
    key: Seq<char>,
    resp: CodeContextResponse,
) -> bool {
    let i = store_find(old_store, key);
    if i >= 0 {
        &&& new_store == old_store.remove(i)
        &&& resp.success
        &&& resp.message@ == "Context cleared successfully"@
        &&& resp.data matches Some(d) && d@ == spec_key_obj(key)
    } else {
        &&& new_store == old_store
        &&& !resp.success
        &&& resp.message@ == "Context key not found: "@ + key
        &&& resp.data is None
    }
}

fn key_obj(key: &str) -> (r: JsonValue)
    ensures
        r@ == spec_key_obj(key@),
{
    let mut ms: Vec<(String, JsonValue)> = Vec::new();
    proof {
        assert(JsonValue::view_obj(ms@) =~= Seq::<(Seq<char>, SpecJson)>::empty());
    }
    push_member(&mut ms, "key".to_owned(), JsonValue::Str(key.to_owned()));
    proof {
        assert(JsonValue::view_obj(ms@) =~= seq![("key"@, SpecJson::Str(key@))]);
    }
    JsonValue::Obj(ms)
}

fn not_found_response(key: &str) -> (r: CodeContextResponse)
    ensures
        !r.success,
        r.message@ == "Context key not found: "@ + key@,
        r.data is None,
{
    CodeContextResponse {
        success: false,
        message: "Context key not found: ".to_owned().concat(key),
        data: None,
    }
}

/// The shared context store: get, set, merge-update and clear on a key-value
/// map. A caller that shares it serializes whole operations around it.
#[derive(Debug)]
pub struct ThreadsafeCodeContextTool {
    pub store: Vec<ContextEntry>,
}

impl ThreadsafeCodeContextTool {
    pub fn new() -> (r: Self)
        ensures
            r.store@.len() == 0,
    {
        Self { store: Vec::new() }
    }

    /// Where the first entry with the key stands, or the store's length.
    fn find(&self, key: &str) -> (i: usize)
        ensures
            i <= self.store@.len(),
            i < self.store@.len() ==> store_find(self.store@, key@) == i
                && self.store@[i as int].key@ == key@,
            i == self.store@.len() ==> store_find(self.store@, key@) < 0,
    {
        let n = self.store.len();
        let mut i: usize = 0;
        while i < n
            invariant
                i <= n,
                n == self.store@.len(),
                forall|m: int| 0 <= m < i ==> (#[trigger] self.store@[m]).key@ != key@,
            decreases n - i,
        {
            if str_eq(self.store[i].key.as_str(), key) {
                proof {
                    lemma_store_find_first(self.store@, key@, i as int);
                }
                return i;
            }
            i += 1;
        }
        proof {
            lemma_store_find_none(self.store@, key@);
        }
        n
    }

    /// The entry under the key, wrapped for the wire; a failure when absent.
    pub fn get_context(&self, key: &str) -> (r: Result<CodeContextResponse, String>)
        ensures
            r matches Ok(resp) && get_post(self.store@, key@, resp),
    {
        let i = self.find(key);
        if i < self.store.len() {
            let mut ms: Vec<(String, JsonValue)> = Vec::new();
            proof {
                assert(JsonValue::view_obj(ms@) =~= Seq::<(Seq<char>, SpecJson)>::empty());
            }
            push_member(&mut ms, "key".to_owned(), JsonValue::Str(key.to_owned()));
            push_member(&mut ms, "value".to_owned(), clone_value(&self.store[i].value));
            push_member(
                &mut ms,
                "metadata".to_owned(),
                JsonValue::Obj(clone_obj(&self.store[i].metadata)),
            );
            proof {
                assert(JsonValue::view_obj(ms@) =~= seq![
                    ("key"@, SpecJson::Str(key@)),
                    ("value"@, self.store@[i as int].value@),
                    (
                        "metadata"@,
                        SpecJson::Obj(JsonValue::view_obj(self.store@[i as int].metadata@)),
                    ),
                ]);
            }
            Ok(
                CodeContextResponse {
                    success: true,
                    message: "Context retrieved successfully".to_owned(),
                    data: Some(JsonValue::Obj(ms)),
                },
            )
        } else {
            Ok(not_found_response(key))
        }
    }

    /// Creates or overwrites the entry whole; absent metadata becomes empty.
    pub fn set_context(
        &mut self,
        key: &str,
        value: JsonValue,
        metadata: Option<Vec<(String, JsonValue)>>,
    ) -> (r: Result<CodeContextResponse, String>)
        ensures
            r matches Ok(resp) && set_post(
                old(self).store@,
                final(self).store@,
                key@,
                value@,
                match metadata {
                    Some(m) => JsonValue::view_obj(m@),
                    None => Seq::empty(),
                },
                resp,
            ),
            store_keys_unique(old(self).store@) ==> store_keys_unique(final(self).store@),
    {
        let md = match metadata {
            Some(m) => m,
            None => {
                let e: Vec<(String, JsonValue)> = Vec::new();
                proof {
                    assert(JsonValue::view_obj(e@) =~= Seq::<(Seq<char>, SpecJson)>::empty());
                }
                e
            },
        };
        let entry = ContextEntry { key: key.to_owned(), value, metadata: md };
        let i = self.find(key);
        if i < self.store.len() {
            self.store.set(i, entry);
            proof {
                if store_keys_unique(old(self).store@) {
                    assert forall|a: int, b: int|
                        0 <= a < b < self.store@.len() implies (#[trigger] self.store@[a]).key@
                        != (#[trigger] self.store@[b]).key@ by {
                        if a != i as int && b != i as int {
                            assert(self.store@[a] == old(self).store@[a]);
                            assert(self.store@[b] == old(self).store@[b]);
                        }
                    }
                }
            }
        } else {
            self.store.push(entry);
            proof {
                assert(self.store@.subrange(0, old(self).store@.len() as int) =~= old(
                    self,
                ).store@);
                crate::code_context::lemma_absent_key_unique(old(self).store@, key@);
            }
        }
        Ok(
            CodeContextResponse {
                success: true,
                message: "Context set successfully".to_owned(),
                data: Some(key_obj(key)),
            },
        )
    }

    /// Merges into the entry under the key; refuses to create one.
    pub fn update_context(
        &mut self,
        key: &str,
        value: JsonValue,
        metadata: Option<Vec<(String, JsonValue)>>,
    ) -> (r: Result<CodeContextResponse, String>)
        ensures
            r matches Ok(resp) && update_post(
                old(self).store@,
                final(self).store@,
                key@,
                value@,
                match metadata {
                    Some(m) => Some(JsonValue::view_obj(m@)),
                    None => None,
                },
                resp,
            ),
            store_keys_unique(old(self).store@) ==> store_keys_unique(final(self).store@),
    {
        let i = self.find(key);
        if i == self.store.len() {
            return Ok(not_found_response(key));
        }
        let old_entry = self.store.remove(i);
        let merged_value = match (old_entry.value, value) {
            (JsonValue::Obj(mut a), JsonValue::Obj(b)) => {
                merge_members(&mut a, &b);
                JsonValue::Obj(a)
            },
            (_, v) => v,
        };
        let mut md = old_entry.metadata;
        match &metadata {
            Some(m) => {
                merge_members(&mut md, m);
            },
            None => {},
        }
        let entry = ContextEntry { key: old_entry.key, value: merged_value, metadata: md };
        self.store.insert(i, entry);
        proof {
            assert(self.store@ =~= old(self).store@.update(
                i as int,
                self.store@[i as int],
            ));
            assert(self.store@[i as int].key@ == key@);
            if store_keys_unique(old(self).store@) {
                assert forall|a: int, b: int|
                    0 <= a < b < self.store@.len() implies (#[trigger] self.store@[a]).key@ != (
                #[trigger] self.store@[b]).key@ by {
                    if a != i as int && b != i as int {
                        assert(self.store@[a] == old(self).store@[a]);
                        assert(self.store@[b] == old(self).store@[b]);
                    } else {
                        assert(old(self).store@[a].key@ != old(self).store@[b].key@);
                    }
                }
            }
        }
        Ok(
            CodeContextResponse {
                success: true,
                message: "Context updated successfully".to_owned(),
                data: Some(key_obj(key)),
            },
        )
    }

    /// Removes the entry under the key; a failure when absent.
    pub fn clear_context(&mut self, key: &str) -> (r: Result<CodeContextResponse, String>)
        ensures
            r matches Ok(resp) && clear_post(old(self).store@, final(self).store@, key@, resp),
            store_keys_unique(old(self).store@) ==> store_keys_unique(final(self).store@),
    {
        let i = self.find(key);
        if i == self.store.len() {
            return Ok(not_found_response(key));
        }
        self.store.remove(i);
        proof {
            if store_keys_unique(old(self).store@) {
                assert forall|a: int, b: int|
                    0 <= a < b < self.store@.len() implies (#[trigger] self.store@[a]).key@ != (
                #[trigger] self.store@[b]).key@ by {
                    let oa: int = if a < i as int { a } else { a + 1 };
                    let ob: int = if b < i as int { b } else { b + 1 };
                    assert(self.store@[a] == old(self).store@[oa]);
                    assert(self.store@[b] == old(self).store@[ob]);
                }
            }
        }
        Ok(
            CodeContextResponse {
                success: true,
                message: "Context cleared successfully".to_owned(),
                data: Some(key_obj(key)),
            },
        )
    }

    /// One operation, dispatched by its name; writes without a value fail
    /// without touching the store.
    pub fn execute(&mut self, request: CodeContextRequest) -> (r: Result<
        CodeContextResponse,
        String,
    >)
        ensures
            r matches Ok(resp) && ({
                let op = request.operation@;
                if op == "get"@ {
                    *final(self) == *old(self) && get_post(old(self).store@, request.key@, resp)
                } else if op == "set"@ {
                    match request.value {
                        Some(v) => set_post(
                            old(self).store@,
                            final(self).store@,
                            request.key@,
                            v@,
                            match request.metadata {
                                Some(m) => JsonValue::view_obj(m@),
                                None => Seq::empty(),
                            },
                            resp,
                        ),
                        None => *final(self) == *old(self) && !resp.success && resp.message@
                            == "Value required for set operation"@ && resp.data is None,
                    }
                } else if op == "update"@ {
                    match request.value {
                        Some(v) => update_post(
                            old(self).store@,
                            final(self).store@,
                            request.key@,
                            v@,
                            match request.metadata {
                                Some(m) => Some(JsonValue::view_obj(m@)),
                                None => None,
                            },
                            resp,
                        ),
                        None => *final(self) == *old(self) && !resp.success && resp.message@
                            == "Value required for update operation"@ && resp.data is None,
                    }
                } else if op == "clear"@ {
                    clear_post(old(self).store@, final(self).store@, request.key@, resp)
                } else {
                    *final(self) == *old(self) && !resp.success && resp.message@
                        == "Unsupported operation: "@ + op && resp.data is None
                }
            }),
            store_keys_unique(old(self).store@) ==> store_keys_unique(final(self).store@),
    {
        if str_eq(request.operation.as_str(), "get") {
            self.get_context(request.key.as_str())
        } else if str_eq(request.operation.as_str(), "set") {
            match request.value {
                Some(v) => self.set_context(request.key.as_str(), v, request.metadata),
                None => Ok(
                    CodeContextResponse {
                        success: false,
                        message: "Value required for set operation".to_owned(),
                        data: None,
                    },
                ),
            }
        } else if str_eq(request.operation.as_str(), "update") {
            match request.value {
                Some(v) => self.update_context(request.key.as_str(), v, request.metadata),
                None => Ok(
                    CodeContextResponse {
                        success: false,
                        message: "Value required for update operation".to_owned(),
                        data: None,
                    },
                ),
            }
        } else if str_eq(request.operation.as_str(), "clear") {
            self.clear_context(request.key.as_str())
        } else {
            Ok(
                CodeContextResponse {
                    success: false,
                    message: "Unsupported operation: ".to_owned().concat(
                        request.operation.as_str(),
                    ),
                    data: None,
                },
            )
        }
    }
}

/// A store without the key stays unique when an entry with it is appended.
proof fn lemma_absent_key_unique(s: Seq<ContextEntry>, k: Seq<char>)
    requires
        store_find(s, k) < 0,
    ensures
        forall|m: int| 0 <= m < s.len() ==> (#[trigger] s[m]).key@ != k,
    decreases s.len(),
{
    if s.len() > 0 {
        let tail = s.subrange(1, s.len() as int);
        lemma_absent_key_unique(tail, k);
        assert forall|m: int| 0 <= m < s.len() implies (#[trigger] s[m]).key@ != k by {
            if m > 0 {
                assert(tail[m - 1] == s[m]);
            }
        }
    }
}

/// The non-threadsafe variant answers every operation with a fixed canned
/// response and owns no state.
#[derive(Debug)]
pub struct CodeContextTool;

impl CodeContextTool {
    pub fn new() -> (r: Self) {
        Self
    }

    /// A canned response per operation, a pure function of the request:
    /// reads pretend to find a placeholder under the request's key, writes
    /// succeed when a value is given, anything else is refused.
    pub fn execute(&self, request: CodeContextRequest) -> (r: Result<CodeContextResponse, String>)
        ensures
            r matches Ok(resp) && ({
                let op = request.operation@;
                if op == "get"@ {
                    resp.success && resp.message@ == "Context retrieved successfully"@ && (
                    resp.data matches Some(d) && d@ == SpecJson::Obj(
                        seq![
                            ("key"@, SpecJson::Str(request.key@)),
                            ("value"@, SpecJson::Str("mock_value"@)),
                            ("metadata"@, SpecJson::Obj(Seq::empty())),
                        ],
                    ))
                } else if op == "set"@ {
                    match request.value {
                        Some(_) => resp.success && resp.message@ == "Context set successfully"@
                            && (resp.data matches Some(d) && d@ == spec_key_obj(request.key@)),
                        None => !resp.success && resp.message@
                            == "Value required for set operation"@ && resp.data is None,
                    }
                } else if op == "update"@ {
                    match request.value {
                        Some(_) => resp.success && resp.message@
                            == "Context updated successfully"@ && (resp.data matches Some(d)
                            && d@ == spec_key_obj(request.key@)),
                        None => !resp.success && resp.message@
                            == "Value required for update operation"@ && resp.data is None,
                    }
                } else if op == "clear"@ {
                    resp.success && resp.message@ == "Context cleared successfully"@ && (
                    resp.data matches Some(d) && d@ == spec_key_obj(request.key@))
                } else {
                    !resp.success && resp.message@ == "Unsupported operation: "@ + op
                        && resp.data is None
                }
            }),
    {
        if str_eq(request.operation.as_str(), "get") {
            let mut ms: Vec<(String, JsonValue)> = Vec::new();
            proof {
                assert(JsonValue::view_obj(ms@) =~= Seq::<(Seq<char>, SpecJson)>::empty());
            }
            push_member(&mut ms, "key".to_owned(), JsonValue::Str(request.key.clone()));
            push_member(&mut ms, "value".to_owned(), JsonValue::Str("mock_value".to_owned()));
            push_member(&mut ms, "metadata".to_owned(), JsonValue::Obj(Vec::new()));
            proof {
                assert(JsonValue::view_obj(ms@) =~= seq![
                    ("key"@, SpecJson::Str(request.key@)),
                    ("value"@, SpecJson::Str("mock_value"@)),
                    ("metadata"@, SpecJson::Obj(Seq::<(Seq<char>, SpecJson)>::empty())),
                ]);
            }
            Ok(
                CodeContextResponse {
                    success: true,
                    message: "Context retrieved successfully".to_owned(),
                    data: Some(JsonValue::Obj(ms)),
                },
            )
        } else if str_eq(request.operation.as_str(), "set") {
            match request.value {
                Some(_) => Ok(
                    CodeContextResponse {
                        success: true,
                        message: "Context set successfully".to_owned(),
                        data: Some(key_obj(request.key.as_str())),
                    },
                ),
                None => Ok(
                    CodeContextResponse {
                        success: false,
                        message: "Value required for set operation".to_owned(),
                        data: None,
                    },
                ),
            }
        } else if str_eq(request.operation.as_str(), "update") {
            match request.value {
                Some(_) => Ok(
                    CodeContextResponse {
                        success: true,
                        message: "Context updated successfully".to_owned(),
                        data: Some(key_obj(request.key.as_str())),
                    },
                ),
                None => Ok(
                    CodeContextResponse {
                        success: false,
                        message: "Value required for update operation".to_owned(),
                        data: None,
                    },
                ),
            }
        } else if str_eq(request.operation.as_str(), "clear") {
            Ok(
                CodeContextResponse {
                    success: true,
                    message: "Context cleared successfully".to_owned(),
                    data: Some(key_obj(request.key.as_str())),
                },
            )
        } else {
            Ok(
                CodeContextResponse {
                    success: false,
                    message: "Unsupported operation: ".to_owned().concat(
                        request.operation.as_str(),
                    ),
                    data: None,
                },
            )
        }
    }
}

} // verus!
