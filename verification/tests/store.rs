use cerebus_rex::code_context::{
    CodeContextRequest, CodeContextTool, ThreadsafeCodeContextTool,
};
use cerebus_rex::codec::encode_json;
use cerebus_rex::json::JsonValue;

fn obj(members: Vec<(&str, JsonValue)>) -> JsonValue {
    JsonValue::Obj(members.into_iter().map(|(k, v)| (k.to_owned(), v)).collect())
}

fn request(op: &str, key: &str, value: Option<JsonValue>) -> CodeContextRequest {
    CodeContextRequest {
        operation: op.to_owned(),
        key: key.to_owned(),
        value,
        metadata: None,
    }
}

#[test]
fn update_on_an_absent_key_creates_nothing() {
    let mut store = ThreadsafeCodeContextTool::new();
    let resp = store
        .execute(request("update", "k", Some(JsonValue::Int(1))))
        .unwrap();
    assert!(!resp.success);
    assert_eq!(resp.message, "Context key not found: k");
    let resp = store.execute(request("get", "k", None)).unwrap();
    assert!(!resp.success);
    assert_eq!(resp.message, "Context key not found: k");
}

#[test]
fn set_is_visible_to_a_subsequent_get() {
    let mut store = ThreadsafeCodeContextTool::new();
    let resp = store
        .execute(request("set", "k", Some(JsonValue::Int(7))))
        .unwrap();
    assert!(resp.success);
    assert_eq!(resp.message, "Context set successfully");
    let resp = store.execute(request("get", "k", None)).unwrap();
    assert!(resp.success);
    assert_eq!(resp.message, "Context retrieved successfully");
    assert_eq!(
        encode_json(&resp.data.unwrap()),
        "{\"key\":\"k\",\"value\":7,\"metadata\":{}}"
    );
}

#[test]
fn update_merges_objects_shallowly() {
    let mut store = ThreadsafeCodeContextTool::new();
    store
        .execute(request("set", "k", Some(obj(vec![("a", JsonValue::Int(1))]))))
        .unwrap();
    let resp = store
        .execute(request("update", "k", Some(obj(vec![("b", JsonValue::Int(2))]))))
        .unwrap();
    assert!(resp.success);
    let resp = store.execute(request("get", "k", None)).unwrap();
    assert_eq!(
        encode_json(&resp.data.unwrap()),
        "{\"key\":\"k\",\"value\":{\"a\":1,\"b\":2},\"metadata\":{}}"
    );
}

#[test]
fn update_replaces_values_that_are_not_both_objects() {
    let mut store = ThreadsafeCodeContextTool::new();
    store
        .execute(request("set", "k", Some(obj(vec![("a", JsonValue::Int(1))]))))
        .unwrap();
    store
        .execute(request("update", "k", Some(JsonValue::Str("plain".to_owned()))))
        .unwrap();
    let resp = store.execute(request("get", "k", None)).unwrap();
    assert_eq!(
        encode_json(&resp.data.unwrap()),
        "{\"key\":\"k\",\"value\":\"plain\",\"metadata\":{}}"
    );
}

#[test]
fn update_merges_incoming_keys_over_existing_ones() {
    let mut store = ThreadsafeCodeContextTool::new();
    store
        .execute(request(
            "set",
            "k",
            Some(obj(vec![("a", JsonValue::Int(1)), ("b", JsonValue::Int(2))])),
        ))
        .unwrap();
    store
        .execute(request("update", "k", Some(obj(vec![("b", JsonValue::Int(9))]))))
        .unwrap();
    let resp = store.execute(request("get", "k", None)).unwrap();
    assert_eq!(
        encode_json(&resp.data.unwrap()),
        "{\"key\":\"k\",\"value\":{\"a\":1,\"b\":9},\"metadata\":{}}"
    );
}

#[test]
fn metadata_merges_independently_of_the_value() {
    let mut store = ThreadsafeCodeContextTool::new();
    let mut req = request("set", "k", Some(JsonValue::Int(1)));
    req.metadata = Some(vec![("m1".to_owned(), JsonValue::Int(1))]);
    store.execute(req).unwrap();
    let mut req = request("update", "k", Some(JsonValue::Int(2)));
    req.metadata = Some(vec![("m2".to_owned(), JsonValue::Int(2))]);
    store.execute(req).unwrap();
    let resp = store.execute(request("get", "k", None)).unwrap();
    assert_eq!(
        encode_json(&resp.data.unwrap()),
        "{\"key\":\"k\",\"value\":2,\"metadata\":{\"m1\":1,\"m2\":2}}"
    );
}

#[test]
fn clear_removes_the_entry_once() {
    let mut store = ThreadsafeCodeContextTool::new();
    store.execute(request("set", "k", Some(JsonValue::Null))).unwrap();
    let resp = store.execute(request("clear", "k", None)).unwrap();
    assert!(resp.success);
    assert_eq!(resp.message, "Context cleared successfully");
    let resp = store.execute(request("clear", "k", None)).unwrap();
    assert!(!resp.success);
    assert_eq!(resp.message, "Context key not found: k");
}

#[test]
fn writes_without_a_value_are_refused() {
    let mut store = ThreadsafeCodeContextTool::new();
    let resp = store.execute(request("set", "k", None)).unwrap();
    assert!(!resp.success);
    assert_eq!(resp.message, "Value required for set operation");
    let resp = store.execute(request("update", "k", None)).unwrap();
    assert!(!resp.success);
    assert_eq!(resp.message, "Value required for update operation");
    let resp = store.execute(request("frobnicate", "k", None)).unwrap();
    assert!(!resp.success);
    assert_eq!(resp.message, "Unsupported operation: frobnicate");
}

#[test]
fn the_plain_tool_answers_with_canned_responses() {
    let tool = CodeContextTool::new();
    let resp = tool.execute(request("get", "k", None)).unwrap();
    assert!(resp.success);
    assert_eq!(
        encode_json(&resp.data.unwrap()),
        "{\"key\":\"k\",\"value\":\"mock_value\",\"metadata\":{}}"
    );
    let resp = tool.execute(request("set", "k", Some(JsonValue::Int(1)))).unwrap();
    assert!(resp.success);
    let resp = tool.execute(request("set", "k", None)).unwrap();
    assert!(!resp.success);
    let resp = tool.execute(request("clear", "k", None)).unwrap();
    assert!(resp.success);
    let resp = tool.execute(request("other", "k", None)).unwrap();
    assert!(!resp.success);
    assert_eq!(resp.message, "Unsupported operation: other");
}
