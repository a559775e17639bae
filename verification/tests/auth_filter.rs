use gatewayd::auth::{auth_decision, lookup_key, parse_api_keys, AuthDecision};

#[test]
fn parse_empty_string_returns_empty() {
    assert!(parse_api_keys("").is_empty());
}

#[test]
fn parse_no_api_keys_section_returns_empty() {
    assert!(parse_api_keys(r#"{"other":"value"}"#).is_empty());
}

#[test]
fn parse_single_key_value() {
    let keys = parse_api_keys(r#"{"api_keys":{"tenant-a":"secret-a"}}"#);
    assert_eq!(keys.len(), 1);
    assert_eq!(keys[0], ("tenant-a".to_string(), "secret-a".to_string()));
}

#[test]
fn parse_multiple_key_values() {
    let keys = parse_api_keys(
        r#"{"api_keys":{"tenant-a":"key-a","tenant-b":"key-b","tenant-c":"key-c"}}"#,
    );
    assert_eq!(keys.len(), 3);
    assert!(keys.contains(&("tenant-a".to_string(), "key-a".to_string())));
    assert!(keys.contains(&("tenant-b".to_string(), "key-b".to_string())));
    assert!(keys.contains(&("tenant-c".to_string(), "key-c".to_string())));
}

#[test]
fn parse_empty_api_keys_object_returns_empty() {
    assert!(parse_api_keys(r#"{"api_keys":{}}"#).is_empty());
}

#[test]
fn parse_with_whitespace_around_values() {
    let keys = parse_api_keys(r#"{ "api_keys" : { "t1" : "k1" } }"#);
    assert_eq!(keys.len(), 1);
    assert_eq!(keys[0].0, "t1");
    assert_eq!(keys[0].1, "k1");
}

#[test]
fn parse_key_lookup_logic() {
    let keys = parse_api_keys(r#"{"api_keys":{"tenant-a":"correct-key"}}"#);
    let found = keys.iter().find(|(k, _)| k == "tenant-a").map(|(_, v)| v.as_str());
    assert_eq!(found, Some("correct-key"));

    let not_found = keys.iter().find(|(k, _)| k == "unknown-tenant");
    assert!(not_found.is_none());
}

#[test]
fn parse_keeps_entries_in_order_and_stops_at_unterminated_value() {
    let keys = parse_api_keys("{\"api_keys\":{\"a\":\"1\",\"b\":\"2\",\"c\":\"3");
    assert_eq!(
        keys,
        vec![("a".to_string(), "1".to_string()), ("b".to_string(), "2".to_string())]
    );
}

#[test]
fn parse_without_opening_brace_returns_empty() {
    assert!(parse_api_keys(r#""api_keys": "x""#).is_empty());
}

#[test]
fn lookup_key_takes_first_entry() {
    let keys = vec![
        ("t".to_string(), "first".to_string()),
        ("t".to_string(), "second".to_string()),
    ];
    assert_eq!(lookup_key(&keys, &"t".to_string()), Some("first".to_string()));
    assert_eq!(lookup_key(&keys, &"u".to_string()), None);
}

#[test]
fn auth_rejects_wrong_key_and_admits_right_or_unknown_tenant() {
    let keys = parse_api_keys(r#"{"api_keys":{"tenant-a":"correct-key"}}"#);
    let t = "tenant-a".to_string();
    assert!(matches!(auth_decision(&keys, &t, &"wrong".to_string()), AuthDecision::Reject));
    assert!(matches!(auth_decision(&keys, &t, &"".to_string()), AuthDecision::Reject));
    assert!(matches!(auth_decision(&keys, &t, &"correct-key".to_string()), AuthDecision::Admit));
    assert!(matches!(
        auth_decision(&keys, &"other".to_string(), &"".to_string()),
        AuthDecision::Admit
    ));
}
