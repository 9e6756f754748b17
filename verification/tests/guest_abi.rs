use rilot::{interpret_guest_stdout, parse_wasm_output, WasmEngineError, WasmInput, WasmOutput};

#[test]
fn url_override_and_header_update_parse() {
    let out = parse_wasm_output(r#"{"app_url":"http://z","headers_to_update":{"X-Via":"1"}}"#)
        .expect("well-formed answer");
    assert_eq!(out.app_url.as_deref(), Some("http://z"));
    assert_eq!(out.headers_to_update, vec![("X-Via".to_string(), "1".to_string())]);
    assert!(out.headers_to_remove.is_empty());
}

#[test]
fn header_removal_parses() {
    let out = parse_wasm_output(r#"{"headers_to_remove":["Authorization"]}"#).expect("answer");
    assert_eq!(out.app_url, None);
    assert_eq!(out.headers_to_remove, vec!["Authorization".to_string()]);
}

#[test]
fn response_header_fields_are_kept_in_the_model() {
    let out = parse_wasm_output(
        r#"{"response_headers_to_add":{"X-A":"1"},"response_headers_to_remove":["X-B"]}"#,
    )
    .expect("answer");
    assert_eq!(out.response_headers_to_add, vec![("X-A".to_string(), "1".to_string())]);
    assert_eq!(out.response_headers_to_remove, vec!["X-B".to_string()]);
}

#[test]
fn null_app_url_means_no_override() {
    let out = parse_wasm_output(r#"{"app_url":null}"#).expect("answer");
    assert_eq!(out.app_url, None);
}

#[test]
fn unknown_fields_are_ignored() {
    let out = parse_wasm_output(
        r#" { "future": [1, -2.5e+3, true, false, null, {"nested": "x"}], "app_url": "http://n" } "#,
    )
    .expect("answer");
    assert_eq!(out.app_url.as_deref(), Some("http://n"));
}

#[test]
fn later_duplicate_of_a_known_field_wins() {
    let out = parse_wasm_output(r#"{"app_url":"http://a","app_url":"http://b"}"#).expect("answer");
    assert_eq!(out.app_url.as_deref(), Some("http://b"));
}

#[test]
fn string_escapes_decode() {
    let out = parse_wasm_output(
        "{\"app_url\":\"a\\\"b\\\\c\\/d\\n\\t\\u0041\\uD83D\\uDE00\"}",
    )
    .expect("answer");
    assert_eq!(out.app_url.as_deref(), Some("a\"b\\c/d\n\tA\u{1F600}"));
}

#[test]
fn lone_surrogate_is_rejected() {
    assert!(parse_wasm_output(r#"{"app_url":"\uD83D"}"#).is_none());
    assert!(parse_wasm_output(r#"{"app_url":"\uDE00"}"#).is_none());
}

#[test]
fn malformed_texts_are_rejected() {
    assert!(parse_wasm_output("{").is_none());
    assert!(parse_wasm_output("3").is_none());
    assert!(parse_wasm_output("[]").is_none());
    assert!(parse_wasm_output(r#"{"app_url":12}"#).is_none());
    assert!(parse_wasm_output(r#"{"headers_to_update":["x"]}"#).is_none());
    assert!(parse_wasm_output(r#"{"headers_to_remove":{"x":"y"}}"#).is_none());
    assert!(parse_wasm_output(r#"{"a":01}"#).is_none());
    assert!(parse_wasm_output(r#"{"a":1} trailing"#).is_none());
    assert!(parse_wasm_output(r#"{"a":1,}"#).is_none());
    assert!(parse_wasm_output("{\"a\":\"\u{0001}\"}").is_none());
}

#[test]
fn empty_object_is_the_noop_answer() {
    let out = parse_wasm_output("  { }  ").expect("answer");
    assert_eq!(out.app_url, None);
    assert!(out.headers_to_update.is_empty());
    assert!(out.headers_to_remove.is_empty());
}

#[test]
fn empty_stdout_is_the_noop_answer() {
    let out = interpret_guest_stdout(Vec::new()).expect("no-op");
    assert_eq!(out.app_url, None);
    let out = interpret_guest_stdout(b"  \r\n\t ".to_vec()).expect("no-op");
    assert!(out.headers_to_update.is_empty());
}

#[test]
fn non_utf8_stdout_is_an_encoding_error() {
    let r = interpret_guest_stdout(vec![0xFF, 0xFE]);
    assert_eq!(r.unwrap_err(), WasmEngineError::Encoding);
}

#[test]
fn malformed_stdout_is_a_deserialize_error() {
    let r = interpret_guest_stdout(b"{\"app_url\":".to_vec());
    assert_eq!(r.unwrap_err(), WasmEngineError::Deserialize);
}

#[test]
fn well_formed_stdout_is_decoded() {
    let r = interpret_guest_stdout(br#"{"headers_to_remove":["Authorization"]}"#.to_vec())
        .expect("answer");
    assert_eq!(r.headers_to_remove, vec!["Authorization".to_string()]);
}

#[test]
fn input_serializes_to_one_json_object() {
    let input = WasmInput {
        method: "GET".to_string(),
        path: "/a".to_string(),
        headers: vec![("host".to_string(), "example".to_string())],
        body: "hi".to_string(),
    };
    assert_eq!(
        input.to_json(),
        r#"{"method":"GET","path":"/a","headers":{"host":"example"},"body":"hi"}"#
    );
}

#[test]
fn input_escapes_quotes_backslashes_and_controls() {
    let input = WasmInput {
        method: "GET".to_string(),
        path: "/q\"p".to_string(),
        headers: vec![],
        body: "a\\b\nc".to_string(),
    };
    assert_eq!(
        input.to_json(),
        "{\"method\":\"GET\",\"path\":\"/q\\\"p\",\"headers\":{},\"body\":\"a\\\\b\\u000ac\"}"
    );
}

#[test]
fn serialized_input_is_valid_json_to_another_reader() {
    let input = WasmInput {
        method: "POST".to_string(),
        path: "/x?q=1".to_string(),
        headers: vec![
            ("host".to_string(), "example".to_string()),
            ("x-tab".to_string(), "a\tb".to_string()),
        ],
        body: "{\"inner\":\"quoted \\\" text\"}".to_string(),
    };
    let text = input.to_json();
    let value: serde_json::Value = serde_json::from_str(&text).expect("valid JSON");
    assert_eq!(value["method"], "POST");
    assert_eq!(value["path"], "/x?q=1");
    assert_eq!(value["headers"]["host"], "example");
    assert_eq!(value["headers"]["x-tab"], "a\tb");
    assert_eq!(value["body"], "{\"inner\":\"quoted \\\" text\"}");
}

#[test]
fn noop_answer_constructors_agree() {
    let a = WasmOutput::empty();
    let b = WasmOutput::default();
    assert_eq!(a.app_url, b.app_url);
    assert_eq!(a.headers_to_update, b.headers_to_update);
    assert_eq!(a.headers_to_remove, b.headers_to_remove);
}
