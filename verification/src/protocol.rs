use vstd::prelude::*;

use crate::json::{
    JsonValue, SpecJson, obj_lookup, spec_encode, spec_encode_int, spec_get, spec_parse_json,
    wf_json, wf_json_obj, lemma_json_round_trip,
};

verus! {

// ---------------------------------------------------------------------------
// Envelope types
// ---------------------------------------------------------------------------

/// A request envelope: the method, its optional parameters, and the
/// caller-supplied correlation id, which is never interpreted, only echoed.
#[derive(Debug)]
pub struct McpRequest {
    pub method: String,
    pub params: Option<JsonValue>,
    pub id: Option<String>,
}

/// A protocol error: a code from the taxonomy and a message.
#[derive(Debug)]
pub struct McpError {
    pub code: i32,
    pub message: String,
}

/// A response envelope: a result or an error, never both, and the echoed id.
#[derive(Debug)]
pub struct McpResponse {
    pub result: Option<JsonValue>,
    pub error: Option<McpError>,
    pub id: Option<String>,
}

/// A named capability with a version.
#[derive(Debug)]
pub struct McpCapability {
    pub name: String,
    pub version: String,
}

/// Protocol configuration: capabilities and free-form settings.
#[derive(Debug)]
pub struct McpConfig {
    pub capabilities: Vec<McpCapability>,
    pub settings: Vec<(String, JsonValue)>,
}

/// Abstract form of a request envelope.
pub struct SpecRequest {
    pub method: Seq<char>,
    pub params: Option<SpecJson>,
    pub id: Option<Seq<char>>,
}

/// Abstract form of a protocol error.
pub struct SpecError {
    pub code: int,
    pub message: Seq<char>,
}

/// Abstract form of a response envelope.
pub struct SpecResponse {
    pub result: Option<SpecJson>,
    pub error: Option<SpecError>,
    pub id: Option<Seq<char>>,
}

impl View for McpRequest {
    type V = SpecRequest;

    open spec fn view(&self) -> SpecRequest {
        SpecRequest {
            method: self.method@,
            params: match self.params {
                Some(p) => Some(p@),
                None => None,
            },
            id: match self.id {
                Some(i) => Some(i@),
                None => None,
            },
        }
    }
}

impl View for McpError {
    type V = SpecError;

    open spec fn view(&self) -> SpecError {
        SpecError { code: self.code as int, message: self.message@ }
    }
}

impl View for McpResponse {
    type V = SpecResponse;

    open spec fn view(&self) -> SpecResponse {
        SpecResponse {
            result: match self.result {
                Some(v) => Some(v@),
                None => None,
            },
            error: match self.error {
                Some(e) => Some(e@),
                None => None,
            },
            id: match self.id {
                Some(i) => Some(i@),
                None => None,
            },
        }
    }
}

impl McpRequest {
    pub fn new(method: String, params: Option<JsonValue>, id: Option<String>) -> (r: Self)
        ensures
            r.method == method,
            r.params == params,
            r.id == id,
    {
        Self { method, params, id }
    }
}

impl McpResponse {
    /// A success envelope: a result, no error.
    pub fn success(result: JsonValue, id: Option<String>) -> (r: Self)
        ensures
            r.result == Some(result),
            r.error is None,
            r.id == id,
    {
        Self { result: Some(result), error: None, id }
    }

    /// An error envelope: an error, no result.
    pub fn error(code: i32, message: String, id: Option<String>) -> (r: Self)
        ensures
            r.result is None,
            r.error matches Some(e) && e.code == code && e.message == message,
            r.id == id,
    {
        Self { result: None, error: Some(McpError { code, message }), id }
    }
}

// ---------------------------------------------------------------------------
// Wire form of the envelopes
// ---------------------------------------------------------------------------

pub open spec fn k_method() -> Seq<char> {
    seq!['m', 'e', 't', 'h', 'o', 'd']
}

pub open spec fn k_params() -> Seq<char> {
    seq!['p', 'a', 'r', 'a', 'm', 's']
}

pub open spec fn k_id() -> Seq<char> {
    seq!['i', 'd']
}

pub open spec fn k_result() -> Seq<char> {
    seq!['r', 'e', 's', 'u', 'l', 't']
}

pub open spec fn k_error() -> Seq<char> {
    seq!['e', 'r', 'r', 'o', 'r']
}

pub open spec fn k_code() -> Seq<char> {
    seq!['c', 'o', 'd', 'e']
}

pub open spec fn k_message() -> Seq<char> {
    seq!['m', 'e', 's', 's', 'a', 'g', 'e']
}

/// What the corresponding string literals denote.
pub proof fn lemma_keys()
    ensures
        "method"@ == k_method(),
        "params"@ == k_params(),
        "id"@ == k_id(),
        "result"@ == k_result(),
        "error"@ == k_error(),
        "code"@ == k_code(),
        "message"@ == k_message(),
{
    reveal_strlit("method");
    reveal_strlit("params");
    reveal_strlit("id");
    reveal_strlit("result");
    reveal_strlit("error");
    reveal_strlit("code");
    reveal_strlit("message");
    assert("method"@ =~= k_method());
    assert("params"@ =~= k_params());
    assert("id"@ =~= k_id());
    assert("result"@ =~= k_result());
    assert("error"@ =~= k_error());
    assert("code"@ =~= k_code());
    assert("message"@ =~= k_message());
}

/// The object a request envelope is written as.
pub open spec fn spec_request_to_json(r: SpecRequest) -> SpecJson {
    SpecJson::Obj(
        seq![(k_method(), SpecJson::Str(r.method))] + (match r.params {
            Some(p) => seq![(k_params(), p)],
            None => Seq::empty(),
        }) + (match r.id {
            Some(i) => seq![(k_id(), SpecJson::Str(i))],
            None => Seq::empty(),
        }),
    )
}

/// The envelope a decoded object stands for, if it is one.
pub open spec fn spec_json_to_request(v: SpecJson) -> Option<SpecRequest> {
    match v {
        SpecJson::Obj(ps) => match obj_lookup(ps, k_method()) {
            Some(SpecJson::Str(m)) => {
                let params = obj_lookup(ps, k_params());
                match obj_lookup(ps, k_id()) {
                    None => Some(SpecRequest { method: m, params, id: None }),
                    Some(SpecJson::Str(i)) => Some(
                        SpecRequest { method: m, params, id: Some(i) },
                    ),
                    Some(_) => None,
                }
            },
            _ => None,
        },
        _ => None,
    }
}

/// The object a response envelope is written as: only the present parts.
pub open spec fn spec_response_to_json(r: SpecResponse) -> SpecJson {
    SpecJson::Obj(
        (match r.result {
            Some(v) => seq![(k_result(), v)],
            None => Seq::empty(),
        }) + (match r.error {
            Some(e) => seq![
                (
                    k_error(),
                    SpecJson::Obj(
                        seq![
                            (k_code(), SpecJson::Int(e.code)),
                            (k_message(), SpecJson::Str(e.message)),
                        ],
                    ),
                ),
            ],
            None => Seq::empty(),
        }) + (match r.id {
            Some(i) => seq![(k_id(), SpecJson::Str(i))],
            None => Seq::empty(),
        }),
    )
}

/// The envelope a decoded object stands for, if it is one.
pub open spec fn spec_json_to_response(v: SpecJson) -> Option<SpecResponse> {
    match v {
        SpecJson::Obj(ps) => {
            let id = match obj_lookup(ps, k_id()) {
                None => Some(Option::<Seq<char>>::None),
                Some(SpecJson::Str(i)) => Some(Some(i)),
                Some(_) => None,
            };
            let error = match obj_lookup(ps, k_error()) {
                None => Some(Option::<SpecError>::None),
                Some(SpecJson::Obj(eps)) => match (
                    obj_lookup(eps, k_code()),
                    obj_lookup(eps, k_message()),
                ) {
                    (Some(SpecJson::Int(c)), Some(SpecJson::Str(m))) => if i32::MIN <= c
                        <= i32::MAX {
                        Some(Some(SpecError { code: c, message: m }))
                    } else {
                        None
                    },
                    _ => None,
                },
                Some(_) => None,
            };
            match (id, error) {
                (Some(id), Some(error)) => Some(
                    SpecResponse { result: obj_lookup(ps, k_result()), error, id },
                ),
                _ => None,
            }
        },
        _ => None,
    }
}

/// A well-formed request: parameters, if present, carry wire-width integers.
pub open spec fn wf_request(r: SpecRequest) -> bool {
    match r.params {
        Some(p) => wf_json(p),
        None => true,
    }
}

/// A well-formed response: the result, if present, carries wire-width
/// integers, and the error code fits the error-code width.
pub open spec fn wf_response(r: SpecResponse) -> bool {
    &&& match r.result {
        Some(v) => wf_json(v),
        None => true,
    }
    &&& match r.error {
        Some(e) => i32::MIN <= e.code <= i32::MAX,
        None => true,
    }
}

/// The canonical wire text of a request envelope.
pub open spec fn spec_encode_request(r: SpecRequest) -> Seq<char> {
    spec_encode(spec_request_to_json(r))
}

/// The canonical wire text of a response envelope.
pub open spec fn spec_encode_response(r: SpecResponse) -> Seq<char> {
    spec_encode(spec_response_to_json(r))
}

/// The id recovered from a document on a best-effort basis: a string id as
/// itself, an integer id in decimal.
pub open spec fn spec_recover_id(v: SpecJson) -> Option<Seq<char>> {
    match spec_get(v, k_id()) {
        Some(SpecJson::Str(t)) => Some(t),
        Some(SpecJson::Int(n)) => Some(spec_encode_int(n)),
        _ => None,
    }
}

/// The id recovered from raw text, when the text parses at all.
pub open spec fn spec_extract_id(s: Seq<char>) -> Option<Seq<char>> {
    match spec_parse_json(s) {
        Some(v) => spec_recover_id(v),
        None => None,
    }
}

/// What decoding raw text into a request envelope gives: the envelope, or
/// the best-effort recovered id for the failure response.
pub open spec fn spec_decode_request(s: Seq<char>) -> Result<SpecRequest, Option<Seq<char>>> {
    match spec_parse_json(s) {
        None => Err(None),
        Some(v) => match spec_json_to_request(v) {
            Some(r) => Ok(r),
            None => Err(spec_recover_id(v)),
        },
    }
}

/// What decoding raw text into a response envelope gives.
pub open spec fn spec_decode_response(s: Seq<char>) -> Option<SpecResponse> {
    match spec_parse_json(s) {
        None => None,
        Some(v) => spec_json_to_response(v),
    }
}

// ---------------------------------------------------------------------------
// Round trips
// ---------------------------------------------------------------------------

proof fn lemma_key_distinct()
    ensures
        k_method() != k_params(),
        k_method() != k_id(),
        k_params() != k_id(),
        k_result() != k_error(),
        k_result() != k_id(),
        k_error() != k_id(),
        k_code() != k_message(),
{
    assert(k_method()[0] != k_params()[0]);
    assert(k_method().len() != k_id().len());
    assert(k_params().len() != k_id().len());
    assert(k_result()[0] != k_error()[0]);
    assert(k_result().len() != k_id().len());
    assert(k_error().len() != k_id().len());
    assert(k_code().len() != k_message().len());
}

proof fn lemma_req_json_inverse(r: SpecRequest)
    ensures
        spec_json_to_request(spec_request_to_json(r)) == Some(r),
{
    reveal_with_fuel(obj_lookup, 5);
    lemma_key_distinct();
    let ps = match spec_request_to_json(r) {
        SpecJson::Obj(ps) => ps,
        _ => Seq::empty(),
    };
    assert(ps[0] == (k_method(), SpecJson::Str(r.method)));
    assert(obj_lookup(ps, k_method()) == Some(SpecJson::Str(r.method)));
    match (r.params, r.id) {
        (Some(p), Some(i)) => {
            assert(ps.len() == 3);
            assert(ps[1] == (k_params(), p));
            assert(ps[2] == (k_id(), SpecJson::Str(i)));
            assert(ps.subrange(1, 3)[0] == ps[1]);
            assert(ps.subrange(1, 3).subrange(1, 2) =~= ps.subrange(2, 3));
            assert(ps.subrange(2, 3)[0] == ps[2]);
            assert(ps.subrange(2, 3).subrange(1, 1) =~= Seq::<(Seq<char>, SpecJson)>::empty());
            assert(obj_lookup(ps, k_params()) == Some(p));
            assert(obj_lookup(ps, k_id()) == Some(SpecJson::Str(i)));
        },
        (Some(p), None) => {
            assert(ps.len() == 2);
            assert(ps[1] == (k_params(), p));
            assert(ps.subrange(1, 2)[0] == ps[1]);
            assert(ps.subrange(1, 2).subrange(1, 1) =~= Seq::<(Seq<char>, SpecJson)>::empty());
            assert(obj_lookup(ps, k_params()) == Some(p));
            assert(obj_lookup(ps, k_id()) is None);
        },
        (None, Some(i)) => {
            assert(ps.len() == 2);
            assert(ps[1] == (k_id(), SpecJson::Str(i)));
            assert(ps.subrange(1, 2)[0] == ps[1]);
            assert(ps.subrange(1, 2).subrange(1, 1) =~= Seq::<(Seq<char>, SpecJson)>::empty());
            assert(obj_lookup(ps, k_params()) is None);
            assert(obj_lookup(ps, k_id()) == Some(SpecJson::Str(i)));
        },
        (None, None) => {
            assert(ps.len() == 1);
            assert(ps.subrange(1, 1) =~= Seq::<(Seq<char>, SpecJson)>::empty());
            assert(obj_lookup(ps, k_params()) is None);
            assert(obj_lookup(ps, k_id()) is None);
        },
    }
}

proof fn lemma_wf_request_json(r: SpecRequest)
    requires
        wf_request(r),
    ensures
        wf_json(spec_request_to_json(r)),
{
    let ps = match spec_request_to_json(r) {
        SpecJson::Obj(ps) => ps,
        _ => Seq::empty(),
    };
    assert forall|k: int| 0 <= k < ps.len() implies wf_json(#[trigger] ps[k].1) by {
        if k == 0 {
            assert(ps[0].1 == SpecJson::Str(r.method));
        }
    }
    lemma_wf_obj_from_members(ps);
}

/// An object whose member values are all well formed is well formed.
proof fn lemma_wf_obj_from_members(ps: Seq<(Seq<char>, SpecJson)>)
    requires
        forall|k: int| 0 <= k < ps.len() ==> wf_json(#[trigger] ps[k].1),
    ensures
        wf_json_obj(ps),
    decreases ps.len(),
{
    if ps.len() > 0 {
        let tail = ps.subrange(1, ps.len() as int);
        assert forall|k: int| 0 <= k < tail.len() implies wf_json(#[trigger] tail[k].1) by {
            assert(tail[k] == ps[k + 1]);
        }
        lemma_wf_obj_from_members(tail);
    }
}

/// Decoding the canonical text of any well-formed request envelope gives the
/// envelope back.
pub proof fn lemma_request_round_trip(r: SpecRequest)
    requires
        wf_request(r),
    ensures
        spec_decode_request(spec_encode_request(r)) == Ok::<SpecRequest, Option<Seq<char>>>(r),
{
    lemma_wf_request_json(r);
    lemma_json_round_trip(spec_request_to_json(r));
    lemma_req_json_inverse(r);
}

proof fn lemma_resp_json_inverse(r: SpecResponse)
    requires
        wf_response(r),
    ensures
        spec_json_to_response(spec_response_to_json(r)) == Some(r),
{
    reveal_with_fuel(obj_lookup, 5);
    lemma_key_distinct();
    let ps = match spec_response_to_json(r) {
        SpecJson::Obj(ps) => ps,
        _ => Seq::empty(),
    };
    let eobj = match r.error {
        Some(e) => seq![
            (
                k_error(),
                SpecJson::Obj(
                    seq![(k_code(), SpecJson::Int(e.code)), (k_message(), SpecJson::Str(e.message))],
                ),
            ),
        ],
        None => Seq::<(Seq<char>, SpecJson)>::empty(),
    };
    if r.error is Some {
        let e = r.error->0;
        let eps = seq![(k_code(), SpecJson::Int(e.code)), (k_message(), SpecJson::Str(e.message))];
        assert(eps.subrange(1, 2)[0] == eps[1]);
        assert(eps.subrange(1, 2).subrange(1, 1) =~= Seq::<(Seq<char>, SpecJson)>::empty());
        assert(obj_lookup(eps, k_code()) == Some(SpecJson::Int(e.code)));
        assert(obj_lookup(eps, k_message()) == Some(SpecJson::Str(e.message)));
    }
    match (r.result, r.error, r.id) {
        (Some(v), Some(e), Some(i)) => {
            assert(ps.len() == 3);
            assert(ps[0] == (k_result(), v));
            assert(ps[1] == eobj[0]);
            assert(ps[2] == (k_id(), SpecJson::Str(i)));
            assert(ps.subrange(1, 3)[0] == ps[1]);
            assert(ps.subrange(1, 3).subrange(1, 2) =~= ps.subrange(2, 3));
            assert(ps.subrange(2, 3)[0] == ps[2]);
            assert(ps.subrange(2, 3).subrange(1, 1) =~= Seq::<(Seq<char>, SpecJson)>::empty());
        },
        (Some(v), Some(e), None) => {
            assert(ps.len() == 2);
            assert(ps[0] == (k_result(), v));
            assert(ps[1] == eobj[0]);
            assert(ps.subrange(1, 2)[0] == ps[1]);
            assert(ps.subrange(1, 2).subrange(1, 1) =~= Seq::<(Seq<char>, SpecJson)>::empty());
        },
        (Some(v), None, Some(i)) => {
            assert(ps.len() == 2);
            assert(ps[0] == (k_result(), v));
            assert(ps[1] == (k_id(), SpecJson::Str(i)));
            assert(ps.subrange(1, 2)[0] == ps[1]);
            assert(ps.subrange(1, 2).subrange(1, 1) =~= Seq::<(Seq<char>, SpecJson)>::empty());
        },
        (Some(v), None, None) => {
            assert(ps.len() == 1);
            assert(ps[0] == (k_result(), v));
            assert(ps.subrange(1, 1) =~= Seq::<(Seq<char>, SpecJson)>::empty());
        },
        (None, Some(e), Some(i)) => {
            assert(ps.len() == 2);
            assert(ps[0] == eobj[0]);
            assert(ps[1] == (k_id(), SpecJson::Str(i)));
            assert(ps.subrange(1, 2)[0] == ps[1]);
            assert(ps.subrange(1, 2).subrange(1, 1) =~= Seq::<(Seq<char>, SpecJson)>::empty());
        },
        (None, Some(e), None) => {
            assert(ps.len() == 1);
            assert(ps[0] == eobj[0]);
            assert(ps.subrange(1, 1) =~= Seq::<(Seq<char>, SpecJson)>::empty());
        },
        (None, None, Some(i)) => {
            assert(ps.len() == 1);
            assert(ps[0] == (k_id(), SpecJson::Str(i)));
            assert(ps.subrange(1, 1) =~= Seq::<(Seq<char>, SpecJson)>::empty());
        },
        (None, None, None) => {
            assert(ps.len() == 0);
        },
    }
}

proof fn lemma_wf_response_json(r: SpecResponse)
    requires
        wf_response(r),
    ensures
        wf_json(spec_response_to_json(r)),
{
    let ps = match spec_response_to_json(r) {
        SpecJson::Obj(ps) => ps,
        _ => Seq::empty(),
    };
    assert forall|k: int| 0 <= k < ps.len() implies wf_json(#[trigger] ps[k].1) by {
        reveal_with_fuel(wf_json_obj, 5);
        if r.error is Some {
            let e = r.error->0;
            let eps = seq![
                (k_code(), SpecJson::Int(e.code)),
                (k_message(), SpecJson::Str(e.message)),
            ];
            assert(eps.subrange(1, 2)[0] == eps[1]);
            assert(eps.subrange(1, 2).subrange(1, 1) =~= Seq::<(Seq<char>, SpecJson)>::empty());
            assert(wf_json(SpecJson::Int(e.code)));
            assert(wf_json(SpecJson::Str(e.message)));
            assert(wf_json_obj(eps.subrange(1, 2).subrange(1, 1)));
            assert(wf_json_obj(eps.subrange(1, 2)));
            assert(wf_json_obj(eps));
        }
    }
    lemma_wf_obj_from_members(ps);
}

/// Decoding the canonical text of any well-formed response envelope gives the
/// envelope back.
pub proof fn lemma_response_round_trip(r: SpecResponse)
    requires
        wf_response(r),
    ensures
        spec_decode_response(spec_encode_response(r)) == Some(r),
{
    lemma_wf_response_json(r);
    lemma_json_round_trip(spec_response_to_json(r));
    lemma_resp_json_inverse(r);
}

// ---------------------------------------------------------------------------
// Executable envelope codec
// ---------------------------------------------------------------------------

/// The wire object a request envelope is written as.
pub fn request_to_json(r: &McpRequest) -> (v: JsonValue)
    ensures
        v@ == spec_request_to_json(r@),
{
    let ghost g0 = seq![(k_method(), SpecJson::Str(r.method@))];
    let ghost seg_p = match r@.params {
        Some(p) => seq![(k_params(), p)],
        None => Seq::<(Seq<char>, SpecJson)>::empty(),
    };
    let ghost seg_i = match r@.id {
        Some(i) => seq![(k_id(), SpecJson::Str(i))],
        None => Seq::<(Seq<char>, SpecJson)>::empty(),
    };
    let mut ms: Vec<(String, JsonValue)> = Vec::new();
    proof {
        lemma_keys();
        assert(JsonValue::view_obj(ms@) =~= Seq::<(Seq<char>, SpecJson)>::empty());
    }
    crate::json::push_member(&mut ms, "method".to_owned(), JsonValue::Str(r.method.clone()));
    proof {
        assert(JsonValue::view_obj(ms@) =~= g0);
    }
    match &r.params {
        Some(p) => {
            crate::json::push_member(&mut ms, "params".to_owned(), p.clone());
            proof {
                assert(JsonValue::view_obj(ms@) =~= g0 + seg_p);
            }
        },
        None => {
            proof {
                assert(JsonValue::view_obj(ms@) =~= g0 + seg_p);
            }
        },
    }
    match &r.id {
        Some(i) => {
            crate::json::push_member(&mut ms, "id".to_owned(), JsonValue::Str(i.clone()));
            proof {
                assert(JsonValue::view_obj(ms@) =~= (g0 + seg_p) + seg_i);
            }
        },
        None => {
            proof {
                assert(JsonValue::view_obj(ms@) =~= (g0 + seg_p) + seg_i);
            }
        },
    }
    proof {
        let target = match spec_request_to_json(r@) {
            SpecJson::Obj(ps) => ps,
            _ => Seq::empty(),
        };
        assert(target == g0 + seg_p + seg_i);
        assert(JsonValue::view_obj(ms@) == target);
    }
    JsonValue::Obj(ms)
}

/// The wire object a response envelope is written as: only the present parts.
pub fn response_to_json(r: &McpResponse) -> (v: JsonValue)
    ensures
        v@ == spec_response_to_json(r@),
{
    let ghost seg_r = match r@.result {
        Some(v) => seq![(k_result(), v)],
        None => Seq::<(Seq<char>, SpecJson)>::empty(),
    };
    let ghost seg_e = match r@.error {
        Some(e) => seq![
            (
                k_error(),
                SpecJson::Obj(
                    seq![(k_code(), SpecJson::Int(e.code)), (k_message(), SpecJson::Str(e.message))],
                ),
            ),
        ],
        None => Seq::<(Seq<char>, SpecJson)>::empty(),
    };
    let ghost seg_i = match r@.id {
        Some(i) => seq![(k_id(), SpecJson::Str(i))],
        None => Seq::<(Seq<char>, SpecJson)>::empty(),
    };
    let mut ms: Vec<(String, JsonValue)> = Vec::new();
    proof {
        lemma_keys();
        assert(JsonValue::view_obj(ms@) =~= Seq::<(Seq<char>, SpecJson)>::empty());
    }
    match &r.result {
        Some(w) => {
            crate::json::push_member(&mut ms, "result".to_owned(), w.clone());
            proof {
                assert(JsonValue::view_obj(ms@) =~= seg_r);
            }
        },
        None => {
            proof {
                assert(JsonValue::view_obj(ms@) =~= seg_r);
            }
        },
    }
    match &r.error {
        Some(e) => {
            let mut es: Vec<(String, JsonValue)> = Vec::new();
            proof {
                assert(JsonValue::view_obj(es@) =~= Seq::<(Seq<char>, SpecJson)>::empty());
            }
            crate::json::push_member(&mut es, "code".to_owned(), JsonValue::Int(e.code as i64));
            crate::json::push_member(
                &mut es,
                "message".to_owned(),
                JsonValue::Str(e.message.clone()),
            );
            proof {
                assert(JsonValue::view_obj(es@) =~= seq![
                    (k_code(), SpecJson::Int(e@.code)),
                    (k_message(), SpecJson::Str(e@.message)),
                ]);
            }
            crate::json::push_member(&mut ms, "error".to_owned(), JsonValue::Obj(es));
            proof {
                assert(JsonValue::view_obj(ms@) =~= seg_r + seg_e);
            }
        },
        None => {
            proof {
                assert(JsonValue::view_obj(ms@) =~= seg_r + seg_e);
            }
        },
    }
    match &r.id {
        Some(i) => {
            crate::json::push_member(&mut ms, "id".to_owned(), JsonValue::Str(i.clone()));
            proof {
                assert(JsonValue::view_obj(ms@) =~= (seg_r + seg_e) + seg_i);
            }
        },
        None => {
            proof {
                assert(JsonValue::view_obj(ms@) =~= (seg_r + seg_e) + seg_i);
            }
        },
    }
    proof {
        let target = match spec_response_to_json(r@) {
            SpecJson::Obj(ps) => ps,
            _ => Seq::empty(),
        };
        assert(target == seg_r + seg_e + seg_i);
        assert(JsonValue::view_obj(ms@) == target);
    }
    JsonValue::Obj(ms)
}

/// The canonical wire text of a request envelope.
pub fn encode_request(r: &McpRequest) -> (s: String)
    ensures
        s@ == spec_encode_request(r@),
{
    let v = request_to_json(r);
    crate::codec::encode_json(&v)
}

/// The canonical wire text of a response envelope.
pub fn encode_response(r: &McpResponse) -> (s: String)
    ensures
        s@ == spec_encode_response(r@),
{
    let v = response_to_json(r);
    crate::codec::encode_json(&v)
}

/// The correlation id a document carries, recovered on a best-effort basis:
/// a string id as itself, an integer id in decimal.
pub fn recover_id(v: &JsonValue) -> (r: Option<String>)
    ensures
        match r {
            Some(s) => spec_recover_id(v@) == Some(s@),
            None => spec_recover_id(v@) is None,
        },
{
    proof {
        lemma_keys();
    }
    match v.get("id") {
        Some(JsonValue::Str(s)) => Some(s.clone()),
        Some(JsonValue::Int(n)) => {
            let mut out = String::new();
            crate::codec::push_int(*n, &mut out);
            proof {
                assert(Seq::<char>::empty() + spec_encode_int(*n as int) =~= spec_encode_int(
                    *n as int,
                ));
            }
            Some(out)
        },
        _ => None,
    }
}

/// The request envelope a decoded document stands for, or the recovered id
/// when it is no request envelope.
pub fn json_to_request(v: &JsonValue) -> (r: Result<McpRequest, Option<String>>)
    ensures
        match r {
            Ok(req) => spec_json_to_request(v@) == Some(req@),
            Err(id) => spec_json_to_request(v@) is None && (match id {
                Some(s) => spec_recover_id(v@) == Some(s@),
                None => spec_recover_id(v@) is None,
            }),
        },
{
    proof {
        lemma_keys();
    }
    let method = match v.get("method") {
        Some(JsonValue::Str(m)) => m.clone(),
        _ => {
            return Err(recover_id(v));
        },
    };
    let params = match v.get("params") {
        Some(p) => Some(p.clone()),
        None => None,
    };
    match v.get("id") {
        None => Ok(McpRequest { method, params, id: None }),
        Some(JsonValue::Str(i)) => Ok(McpRequest { method, params, id: Some(i.clone()) }),
        Some(_) => Err(recover_id(v)),
    }
}

/// Raw text decoded into a request envelope; on failure the recovered id, so
/// the failure response can still be correlated.
pub fn decode_request(text: &str) -> (r: Result<McpRequest, Option<String>>)
    requires
        text@.len() < 0x1000_0000_0000_0000,
    ensures
        match r {
            Ok(req) => spec_decode_request(text@) == Ok::<SpecRequest, Option<Seq<char>>>(req@),
            Err(id) => spec_decode_request(text@) matches Err(sid) && (match (id, sid) {
                (Some(s), Some(t)) => s@ == t,
                (None, None) => true,
                _ => false,
            }),
        },
{
    match crate::codec::decode_json(text) {
        None => Err(None),
        Some(v) => json_to_request(&v),
    }
}

/// The response envelope a decoded document stands for, if it is one.
pub fn json_to_response(v: &JsonValue) -> (r: Option<McpResponse>)
    ensures
        match r {
            Some(resp) => spec_json_to_response(v@) == Some(resp@),
            None => spec_json_to_response(v@) is None,
        },
{
    proof {
        lemma_keys();
    }
    match v {
        JsonValue::Obj(_) => {},
        _ => {
            return None;
        },
    }
    let id = match v.get("id") {
        None => None,
        Some(JsonValue::Str(i)) => Some(i.clone()),
        Some(_) => {
            return None;
        },
    };
    let error = match v.get("error") {
        None => None,
        Some(e) => match (e.get("code"), e.get("message")) {
            (Some(JsonValue::Int(c)), Some(JsonValue::Str(m))) => {
                let c = *c;
                if i32::MIN as i64 <= c && c <= i32::MAX as i64 {
                    proof {
                        if !(e@ is Obj) {
                            assert(spec_get(e@, k_code()) is None);
                        }
                    }
                    Some(McpError { code: c as i32, message: m.clone() })
                } else {
                    return None;
                }
            },
            _ => {
                proof {
                    if !(e@ is Obj) {
                        assert(spec_get(e@, k_code()) is None);
                    }
                }
                return None;
            },
        },
    };
    let result = match v.get("result") {
        Some(w) => Some(w.clone()),
        None => None,
    };
    Some(McpResponse { result, error, id })
}

/// Raw text decoded into a response envelope.
pub fn decode_response(text: &str) -> (r: Option<McpResponse>)
    requires
        text@.len() < 0x1000_0000_0000_0000,
    ensures
        match r {
            Some(resp) => spec_decode_response(text@) == Some(resp@),
            None => spec_decode_response(text@) is None,
        },
{
    match crate::codec::decode_json(text) {
        None => None,
        Some(v) => json_to_response(&v),
    }
}

/// The id recovered from raw text, when the text parses at all.
pub fn extract_id(text: &str) -> (r: Option<String>)
    requires
        text@.len() < 0x1000_0000_0000_0000,
    ensures
        match r {
            Some(s) => spec_extract_id(text@) == Some(s@),
            None => spec_extract_id(text@) is None,
        },
{
    match crate::codec::decode_json(text) {
        None => None,
        Some(v) => recover_id(&v),
    }
}

} // verus!
