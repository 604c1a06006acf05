use cerebus_rex::codec::{decode_json, encode_json};
use cerebus_rex::json::JsonValue;
use cerebus_rex::protocol::{
    McpRequest, McpResponse, decode_request, decode_response, encode_request, encode_response,
    extract_id,
};

fn obj(members: Vec<(&str, JsonValue)>) -> JsonValue {
    JsonValue::Obj(members.into_iter().map(|(k, v)| (k.to_owned(), v)).collect())
}

fn s(text: &str) -> JsonValue {
    JsonValue::Str(text.to_owned())
}

fn round_trips(v: JsonValue) -> String {
    let text = encode_json(&v);
    let back = decode_json(text.as_str()).expect("canonical text must decode");
    let again = encode_json(&back);
    assert_eq!(text, again);
    text
}

#[test]
fn scalar_round_trips() {
    assert_eq!(round_trips(JsonValue::Null), "null");
    assert_eq!(round_trips(JsonValue::Bool(true)), "true");
    assert_eq!(round_trips(JsonValue::Bool(false)), "false");
    assert_eq!(round_trips(JsonValue::Int(0)), "0");
    assert_eq!(round_trips(JsonValue::Int(-7)), "-7");
    assert_eq!(round_trips(JsonValue::Int(i64::MAX)), "9223372036854775807");
    assert_eq!(round_trips(JsonValue::Int(i64::MIN)), "-9223372036854775808");
    assert_eq!(round_trips(s("hello")), "\"hello\"");
}

#[test]
fn string_escapes_round_trip() {
    assert_eq!(round_trips(s("a\"b")), "\"a\\\"b\"");
    assert_eq!(round_trips(s("a\\b")), "\"a\\\\b\"");
    assert_eq!(round_trips(s("a\nb\tc\rd")), "\"a\\nb\\tc\\rd\"");
    assert_eq!(round_trips(s("\u{1}")), "\"\\u0001\"");
    assert_eq!(round_trips(s("")), "\"\"");
    assert_eq!(round_trips(s("unicode: \u{e9}\u{4e2d}")), "\"unicode: \u{e9}\u{4e2d}\"");
}

#[test]
fn containers_round_trip() {
    let v = obj(vec![
        ("a", JsonValue::Int(1)),
        ("b", JsonValue::Arr(vec![JsonValue::Null, JsonValue::Bool(true), s("x")])),
        ("c", obj(vec![("nested", JsonValue::Arr(vec![]))])),
    ]);
    assert_eq!(
        round_trips(v),
        "{\"a\":1,\"b\":[null,true,\"x\"],\"c\":{\"nested\":[]}}"
    );
    assert_eq!(round_trips(JsonValue::Arr(vec![])), "[]");
    assert_eq!(round_trips(obj(vec![])), "{}");
}

#[test]
fn duplicate_keys_are_kept_in_order() {
    let v = obj(vec![("k", JsonValue::Int(1)), ("k", JsonValue::Int(2))]);
    assert_eq!(round_trips(v), "{\"k\":1,\"k\":2}");
}

#[test]
fn decoder_accepts_whitespace() {
    let v = decode_json(" { \"a\" : [ 1 , 2 ] , \"b\" : null } ").expect("decodes");
    assert_eq!(encode_json(&v), "{\"a\":[1,2],\"b\":null}");
}

#[test]
fn decoder_rejects_malformed_text() {
    for bad in [
        "", "{", "}", "nul", "tru", "[1,", "{\"a\":}", "\"unterminated", "{\"a\" 1}", "1 2",
        "[1] trailing", "{\"a\":1,}", "01a", "--3", "\"bad \\q escape\"", "\"\\u00\"",
        "9223372036854775808", "-9223372036854775809",
    ] {
        assert!(decode_json(bad).is_none(), "should refuse: {}", bad);
    }
}

#[test]
fn decoder_reads_short_hex_escapes() {
    let v = decode_json("\"\\u0041\\u000a\\u0000\"").expect("decodes");
    match v {
        JsonValue::Str(text) => assert_eq!(text, "A\n\u{0}"),
        _ => panic!("expected a string"),
    }
    assert!(decode_json("\"\\u0141\"").is_none());
    assert!(decode_json("\"\\u00g1\"").is_none());
}

#[test]
fn decoder_handles_boundary_integers() {
    assert_eq!(encode_json(&decode_json("9223372036854775807").unwrap()), "9223372036854775807");
    assert_eq!(
        encode_json(&decode_json("-9223372036854775808").unwrap()),
        "-9223372036854775808"
    );
    assert_eq!(encode_json(&decode_json("007").unwrap()), "7");
}

#[test]
fn request_envelope_round_trips() {
    let req = McpRequest::new(
        "tools/call".to_owned(),
        Some(obj(vec![("name", s("search"))])),
        Some("42".to_owned()),
    );
    let text = encode_request(&req);
    assert_eq!(text, "{\"method\":\"tools/call\",\"params\":{\"name\":\"search\"},\"id\":\"42\"}");
    let back = decode_request(text.as_str()).expect("decodes");
    assert_eq!(back.method, "tools/call");
    assert_eq!(back.id.as_deref(), Some("42"));
    assert_eq!(encode_json(back.params.as_ref().unwrap()), "{\"name\":\"search\"}");

    let bare = McpRequest::new("server/info".to_owned(), None, None);
    let text = encode_request(&bare);
    assert_eq!(text, "{\"method\":\"server/info\"}");
    let back = decode_request(text.as_str()).expect("decodes");
    assert_eq!(back.method, "server/info");
    assert!(back.params.is_none());
    assert!(back.id.is_none());
}

#[test]
fn response_envelope_round_trips() {
    let ok = McpResponse::success(obj(vec![("x", JsonValue::Int(1))]), Some("9".to_owned()));
    let text = encode_response(&ok);
    assert_eq!(text, "{\"result\":{\"x\":1},\"id\":\"9\"}");
    let back = decode_response(text.as_str()).expect("decodes");
    assert!(back.error.is_none());
    assert_eq!(back.id.as_deref(), Some("9"));
    assert_eq!(encode_json(back.result.as_ref().unwrap()), "{\"x\":1}");

    let err = McpResponse::error(-32700, "Invalid JSON".to_owned(), None);
    let text = encode_response(&err);
    assert_eq!(text, "{\"error\":{\"code\":-32700,\"message\":\"Invalid JSON\"}}");
    let back = decode_response(text.as_str()).expect("decodes");
    assert!(back.result.is_none());
    let e = back.error.unwrap();
    assert_eq!(e.code, -32700);
    assert_eq!(e.message, "Invalid JSON");
    assert!(back.id.is_none());
}

#[test]
fn a_result_holding_an_error_key_is_not_misread() {
    let tricky = McpResponse::success(
        obj(vec![("error", s("not a real error"))]),
        Some("5".to_owned()),
    );
    let text = encode_response(&tricky);
    let back = decode_response(text.as_str()).expect("decodes");
    assert!(back.result.is_some());
    assert!(back.error.is_none());
}

#[test]
fn canonical_text_is_standard_json() {
    let v = obj(vec![
        ("text", s("a\"b\\c\nd\u{1}e unicode \u{e9}")),
        ("numbers", JsonValue::Arr(vec![
            JsonValue::Int(0),
            JsonValue::Int(-42),
            JsonValue::Int(i64::MAX),
            JsonValue::Int(i64::MIN),
        ])),
        ("flags", JsonValue::Arr(vec![JsonValue::Bool(true), JsonValue::Null])),
        ("nested", obj(vec![("empty", JsonValue::Arr(vec![]))])),
    ]);
    let text = encode_json(&v);
    let parsed: serde_json::Value =
        serde_json::from_str(&text).expect("a standard parser accepts the canonical text");
    assert_eq!(parsed["text"], serde_json::Value::from("a\"b\\c\nd\u{1}e unicode \u{e9}"));
    assert_eq!(parsed["numbers"][1], serde_json::Value::from(-42i64));
    assert_eq!(parsed["numbers"][3], serde_json::Value::from(i64::MIN));
    assert_eq!(parsed["flags"][1], serde_json::Value::Null);
    assert!(parsed["nested"]["empty"].as_array().unwrap().is_empty());

    let reprinted = serde_json::to_string(&parsed).expect("serializes");
    let reparsed = decode_json(&reprinted).expect("our decoder accepts standard output");
    let through: serde_json::Value =
        serde_json::from_str(&encode_json(&reparsed)).expect("still standard");
    assert_eq!(through, parsed);
}

#[test]
fn id_recovery_is_best_effort() {
    assert_eq!(extract_id("{\"id\":\"abc\"}").as_deref(), Some("abc"));
    assert_eq!(extract_id("{\"id\":42}").as_deref(), Some("42"));
    assert_eq!(extract_id("{\"id\":-3}").as_deref(), Some("-3"));
    assert_eq!(extract_id("{\"id\":null}"), None);
    assert_eq!(extract_id("{}"), None);
    assert_eq!(extract_id("not json"), None);
    assert_eq!(
        extract_id("{\"method\":5,\"id\":\"7\"}").as_deref(),
        Some("7")
    );
}

#[test]
fn invalid_envelopes_still_recover_the_id() {
    let r = decode_request("{\"id\":\"7\",\"method\":5}");
    assert_eq!(r.unwrap_err().as_deref(), Some("7"));
    let r = decode_request("{\"params\":{}}");
    assert_eq!(r.unwrap_err(), None);
    let r = decode_request("{\"method\":\"x\",\"id\":13}");
    assert_eq!(r.unwrap_err().as_deref(), Some("13"));
    let r = decode_request("{nope");
    assert_eq!(r.unwrap_err(), None);
}
