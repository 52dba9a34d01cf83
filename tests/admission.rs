use validator_runtime::{
    check_headers, decide_headers, find_entry, frame_object, validate, Decision, Json, Reason,
};

fn rejected(r: Reason) -> Decision {
    Decision::Rejected(r)
}

fn obj(members: Vec<(&str, Json)>) -> Json {
    Json::Object(members.into_iter().map(|(k, v)| (k.to_string(), v)).collect())
}

fn text(s: &str) -> Json {
    Json::Text(s.to_string())
}

const GOOD_HEADERS: &str = r#"{"_nonce":1,"_timestamp":2,"_signature_alg":"hmac-sha256"}"#;

fn message(body: &str) -> Vec<u8> {
    body.replace("GOOD", GOOD_HEADERS).into_bytes()
}

#[test]
fn invalid_utf8_is_bad_utf8() {
    assert_eq!(validate(b"not utf8 bytes: \xFF\xFE"), rejected(Reason::BadUtf8));
}

#[test]
fn truncated_sequence_is_bad_utf8() {
    assert_eq!(validate(&[0xE2, 0x82]), rejected(Reason::BadUtf8));
}

#[test]
fn empty_headers_miss_all_keys() {
    assert_eq!(validate(br#"{"headers":{}, "payload":{}}"#), rejected(Reason::MissingHeaders));
}

#[test]
fn complete_headers_are_accepted() {
    let msg = br#"{"headers":{"_nonce":"a","_timestamp":123,"_signature_alg":"hmac-sha256"},"payload":{"x":1}}"#;
    assert_eq!(validate(msg), Decision::Accepted);
}

#[test]
fn wrong_algorithm_is_missing_headers() {
    let msg = br#"{"headers":{"_nonce":"a","_timestamp":123,"_signature_alg":"hmac-sha1"},"payload":{}}"#;
    assert_eq!(validate(msg), rejected(Reason::MissingHeaders));
}

#[test]
fn malformed_json_is_bad_json() {
    assert_eq!(validate(b"{not json"), rejected(Reason::BadJson));
}

#[test]
fn empty_input_is_bad_json() {
    assert_eq!(validate(b""), rejected(Reason::BadJson));
}

#[test]
fn missing_payload_is_bad_json() {
    assert_eq!(validate(br#"{"headers":{}}"#), rejected(Reason::BadJson));
}

#[test]
fn missing_headers_field_is_bad_json() {
    assert_eq!(validate(br#"{"payload":{}}"#), rejected(Reason::BadJson));
}

#[test]
fn top_level_non_object_is_bad_json() {
    assert_eq!(validate(b"42"), rejected(Reason::BadJson));
}

#[test]
fn null_values_count_as_present() {
    let msg = br#"{"headers":{"_nonce":null,"_timestamp":null,"_signature_alg":"hmac-sha256"},"payload":null}"#;
    assert_eq!(validate(msg), Decision::Accepted);
}

#[test]
fn missing_nonce_is_missing_headers() {
    let msg = br#"{"headers":{"_timestamp":1,"_signature_alg":"hmac-sha256"},"payload":[]}"#;
    assert_eq!(validate(msg), rejected(Reason::MissingHeaders));
}

#[test]
fn missing_timestamp_is_missing_headers() {
    let msg = br#"{"headers":{"_nonce":"n","_signature_alg":"hmac-sha256"},"payload":[]}"#;
    assert_eq!(validate(msg), rejected(Reason::MissingHeaders));
}

#[test]
fn non_string_algorithm_is_missing_headers() {
    let msg = br#"{"headers":{"_nonce":"n","_timestamp":1,"_signature_alg":["hmac-sha256"]},"payload":1}"#;
    assert_eq!(validate(msg), rejected(Reason::MissingHeaders));
}

#[test]
fn headers_that_are_no_object_are_bad_json() {
    assert_eq!(validate(br#"{"headers":"x","payload":{}}"#), rejected(Reason::BadJson));
    assert_eq!(validate(br#"{"headers":null,"payload":1}"#), rejected(Reason::BadJson));
    assert_eq!(validate(br#"{"headers":[],"payload":1}"#), rejected(Reason::BadJson));
}

#[test]
fn repeated_headers_is_bad_json() {
    let msg = message(r#"{"headers":{},"headers":GOOD,"payload":0}"#);
    assert_eq!(validate(&msg), rejected(Reason::BadJson));
    let msg = message(r#"{"headers":GOOD,"headers":GOOD,"payload":0}"#);
    assert_eq!(validate(&msg), rejected(Reason::BadJson));
}

#[test]
fn repeated_payload_is_bad_json() {
    let msg = message(r#"{"headers":GOOD,"payload":0,"payload":1}"#);
    assert_eq!(validate(&msg), rejected(Reason::BadJson));
}

#[test]
fn other_members_are_tolerated() {
    let msg = message(r#"{"extra":[1,{"a":null}],"headers":GOOD,"extra":true,"payload":0}"#);
    assert_eq!(validate(&msg), Decision::Accepted);
}

#[test]
fn unconvertible_payload_and_extras_are_only_scanned() {
    let msg = message(r#"{"headers":GOOD,"payload":0,"extra":1e400}"#);
    assert_eq!(validate(&msg), Decision::Accepted);
    let msg = message(r#"{"headers":GOOD,"payload":1e400}"#);
    assert_eq!(validate(&msg), Decision::Accepted);
    let msg = message(r#"{"headers":GOOD,"payload":"\ud800"}"#);
    assert_eq!(validate(&msg), Decision::Accepted);
    let deep = format!("{}{}", "[".repeat(300), "]".repeat(300));
    let msg = message(&format!(r#"{{"headers":GOOD,"payload":{}}}"#, deep));
    assert_eq!(validate(&msg), Decision::Accepted);
}

#[test]
fn unconvertible_headers_are_bad_json() {
    let msg = br#"{"headers":{"_nonce":1e400,"_timestamp":2,"_signature_alg":"hmac-sha256"},"payload":0}"#;
    assert_eq!(validate(msg), rejected(Reason::BadJson));
}

#[test]
fn escaped_key_names_the_field() {
    let msg = message(r#"{"head\u0065rs":GOOD,"payload":0}"#);
    assert_eq!(validate(&msg), Decision::Accepted);
}

#[test]
fn syntax_around_members_is_checked() {
    for body in [
        r#"{"headers":GOOD,"payload":0,}"#,
        r#"{"headers":GOOD,"payload":0} x"#,
        r#"{"headers":GOOD "payload":0}"#,
        r#"{"headers":GOOD,"payload":0x}"#,
        r#"{"headers" GOOD,"payload":0}"#,
        r#"{headers:GOOD,"payload":0}"#,
        r#"[GOOD, 0]"#,
        r#"{}"#,
    ] {
        assert_eq!(validate(&message(body)), rejected(Reason::BadJson), "{}", body);
    }
    let spaced = message(" \n\t{ \"headers\" : GOOD ,\r\"payload\" : 12 } \n");
    assert_eq!(validate(&spaced), Decision::Accepted);
}

#[test]
fn framing_gives_members_and_spans() {
    let text = br#" {"a" : 12, "b":[1, "}"],"c":{}} "#;
    let ms = frame_object(text).unwrap();
    let got: Vec<(String, &[u8])> =
        ms.iter().map(|m| (m.key.clone(), &text[m.start..m.end])).collect();
    assert_eq!(
        got,
        vec![
            ("a".to_string(), &b"12"[..]),
            ("b".to_string(), &br#"[1, "}"]"#[..]),
            ("c".to_string(), &b"{}"[..]),
        ]
    );
    assert_eq!(frame_object(b" { } ").unwrap().len(), 0);
    assert!(frame_object(b"{\"a\":1").is_none());
    assert!(frame_object(b"1").is_none());
}

#[test]
fn payload_is_not_inspected() {
    let msg = br#"{"headers":{"_nonce":"a","_timestamp":1,"_signature_alg":"hmac-sha256"},"payload":{"_signature_alg":5,"deep":[1,2,{"z":null}]}}"#;
    assert_eq!(validate(msg), Decision::Accepted);
}

#[test]
fn same_bytes_same_decision() {
    let inputs: Vec<&[u8]> = vec![
        b"\xFF",
        b"{",
        br#"{"headers":{},"payload":{}}"#,
        br#"{"headers":{"_nonce":1,"_timestamp":2,"_signature_alg":"hmac-sha256"},"payload":0}"#,
    ];
    for input in inputs {
        assert_eq!(validate(input), validate(input));
    }
}

#[test]
fn non_ascii_text_is_accepted() {
    let msg = r#"{"headers":{"_nonce":"é","_timestamp":"t","_signature_alg":"hmac-sha256"},"payload":"ü"}"#;
    assert_eq!(validate(msg.as_bytes()), Decision::Accepted);
}

#[test]
fn status_and_codes() {
    assert_eq!(Decision::Accepted.status(), 0);
    assert_eq!(rejected(Reason::BadUtf8).status(), 1);
    assert_eq!(Reason::BadUtf8.code(), "bad-utf8");
    assert_eq!(Reason::BadJson.code(), "bad-json");
    assert_eq!(Reason::MissingHeaders.code(), "missing-headers");
}

#[test]
fn decide_on_built_headers() {
    assert_eq!(decide_headers(&None), rejected(Reason::BadJson));
    let headers = obj(vec![
        ("_nonce", text("a")),
        ("_timestamp", Json::Number("123".to_string())),
        ("_signature_alg", text("hmac-sha256")),
    ]);
    assert_eq!(decide_headers(&Some(headers)), Decision::Accepted);
    assert_eq!(decide_headers(&Some(obj(vec![]))), rejected(Reason::MissingHeaders));
    assert_eq!(decide_headers(&Some(Json::Null)), rejected(Reason::BadJson));
    assert_eq!(decide_headers(&Some(Json::Array(vec![]))), rejected(Reason::BadJson));
}

#[test]
fn policy_on_built_headers() {
    let good = obj(vec![
        ("_signature_alg", text("hmac-sha256")),
        ("_nonce", Json::Bool(false)),
        ("_timestamp", Json::Null),
    ]);
    assert!(check_headers(&good));
    let first_wins = obj(vec![
        ("_nonce", Json::Null),
        ("_timestamp", Json::Null),
        ("_signature_alg", text("none")),
        ("_signature_alg", text("hmac-sha256")),
    ]);
    assert!(!check_headers(&first_wins));
    assert!(!check_headers(&text("_nonce")));
}

#[test]
fn lookup_finds_first_member() {
    let members = vec![
        ("a".to_string(), Json::Null),
        ("b".to_string(), Json::Bool(true)),
        ("b".to_string(), Json::Null),
    ];
    assert_eq!(find_entry(&members, "b"), Some(1));
    assert_eq!(find_entry(&members, "c"), None);
    assert_eq!(find_entry(&Vec::new(), "a"), None);
    let doc = Json::Object(members);
    assert_eq!(doc.get("b"), Some(&Json::Bool(true)));
    assert_eq!(Json::Null.get("a"), None);
    assert!(text("x").is_text("x"));
    assert!(!text("x").is_text("y"));
    assert!(!Json::Number("1".to_string()).is_text("1"));
    assert!(obj(vec![]).is_object());
    assert!(!Json::Array(vec![]).is_object());
}
