use gatewayd::blocking::{error_body, missing_tenant_body, rate_limited_body, unauthorized_body};
use gatewayd::header::make_id;

#[test]
fn blocking_bodies_name_the_request() {
    assert_eq!(
        unauthorized_body("req-123", "trace-123", "users-read"),
        r#"{"error":{"code":"unauthorized","message":"missing or invalid api key","request_id":"req-123","trace_id":"trace-123","route_id":"users-read"}}"#
    );
    assert_eq!(
        missing_tenant_body("", "", ""),
        r#"{"error":{"code":"missing_tenant","message":"tenant header is required","request_id":"","trace_id":"","route_id":""}}"#
    );
    assert!(rate_limited_body("r", "t", "o").starts_with(r#"{"error":{"code":"rate_limited","message":"rate limit exceeded","#));
}

#[test]
fn blocking_body_escapes_json() {
    assert_eq!(
        error_body("c", "m", "a\"b", "x\\y", "n\nl"),
        "{\"error\":{\"code\":\"c\",\"message\":\"m\",\"request_id\":\"a\\\"b\",\"trace_id\":\"x\\\\y\",\"route_id\":\"n\\u000al\"}}"
    );
    let parsed: serde_json::Value = serde_json::from_str(&error_body("c", "m", "a\"b", "x\\y", "n\nl\u{1f}")).unwrap();
    assert_eq!(parsed["error"]["route_id"], "n\nl\u{1f}");
}

#[test]
fn generated_ids_are_fixed_width_and_distinct() {
    assert_eq!(make_id("req", 0xdeadbeef), "req-deadbeef");
    assert_eq!(make_id("trc", 0), "trc-00000000");
    assert_eq!(make_id("req", 7).len(), 3 + 9);
    assert_ne!(make_id("req", 1), make_id("req", 16));
}
