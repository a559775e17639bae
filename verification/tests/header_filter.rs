use gatewayd::header::{
    extract_string_field, header_config, make_id, request_headers_to_set, response_decision_to_set,
};

#[test]
fn extract_field_basic_string() {
    assert_eq!(extract_string_field(r#"{"revision":"rev-001"}"#, "revision"), "rev-001");
}

#[test]
fn extract_field_multiple_fields() {
    let cfg = r#"{"revision":"rev-123","plugin_chain":"tenant,auth"}"#;
    assert_eq!(extract_string_field(cfg, "revision"), "rev-123");
    assert_eq!(extract_string_field(cfg, "plugin_chain"), "tenant,auth");
}

#[test]
fn extract_field_missing_key_returns_empty() {
    assert_eq!(extract_string_field(r#"{"other":"val"}"#, "revision"), "");
}

#[test]
fn extract_field_empty_string_returns_empty() {
    assert_eq!(extract_string_field("", "revision"), "");
}

#[test]
fn extract_field_with_whitespace() {
    assert_eq!(extract_string_field(r#"{ "revision" : "spaced-rev" }"#, "revision"), "spaced-rev");
}

#[test]
fn extract_field_non_string_value_returns_empty() {
    assert_eq!(extract_string_field(r#"{"revision":42}"#, "revision"), "");
    assert_eq!(extract_string_field(r#"{"revision":"open"#, "revision"), "");
}

#[test]
fn make_id_format_is_prefix_hex() {
    let id = make_id("req", 1);
    assert!(id.starts_with("req-"), "id should start with prefix-");
    assert_eq!(id, "req-00000001");
}

#[test]
fn make_id_zero_context() {
    assert_eq!(make_id("trc", 0), "trc-00000000");
}

#[test]
fn make_id_large_context_id() {
    let id = make_id("req", 0xdeadbeef);
    assert_eq!(id, "req-deadbeef");
}

#[test]
fn make_id_different_prefixes_differ() {
    let req_id = make_id("req", 42);
    let trc_id = make_id("trc", 42);
    assert_ne!(req_id, trc_id);
    assert_eq!(req_id, "req-0000002a");
    assert_eq!(trc_id, "trc-0000002a");
}

#[test]
fn make_id_max_context() {
    assert_eq!(make_id("x", u32::MAX), "x-ffffffff");
}

#[test]
fn request_headers_fill_missing_ids_and_stamp_revision() {
    let cfg = header_config(r#"{"revision":"rev-9","plugin_chain":"a,b"}"#);
    let set = request_headers_to_set(7, "", "existing", &cfg);
    assert_eq!(
        set,
        vec![
            ("x-request-id".to_string(), "req-00000007".to_string()),
            ("x-gateway-revision".to_string(), "rev-9".to_string()),
            ("x-gateway-plugin-chain".to_string(), "a,b".to_string()),
        ]
    );
    let empty_cfg = header_config("");
    let set = request_headers_to_set(1, "r", "t", &empty_cfg);
    assert!(set.is_empty());
}

#[test]
fn response_decision_defaults_to_allow() {
    assert_eq!(response_decision_to_set(""), Some("allow".to_string()));
    assert_eq!(response_decision_to_set("deny"), None);
}
