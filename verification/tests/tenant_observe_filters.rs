use gatewayd::observe::{copied_response_headers, elapsed_ms, log_message, start_key};
use gatewayd::tenant::tenant_missing;

#[test]
fn tenant_missing_when_blank() {
    assert!(tenant_missing(""));
    assert!(tenant_missing("  \t"));
    assert!(!tenant_missing(" tenant-a "));
}

#[test]
fn observe_start_key_and_latency() {
    assert_eq!(start_key(12), "obs:start:12");
    let start: u64 = 5_000_000;
    let raw = start.to_le_bytes();
    assert_eq!(elapsed_ms(Some(&raw), 17_999_999), 12);
    assert_eq!(elapsed_ms(Some(&raw), 1), 0);
    assert_eq!(elapsed_ms(Some(&raw[..4]), 17_999_999), 0);
    assert_eq!(elapsed_ms(None, 17_999_999), 0);
}

#[test]
fn observe_copies_present_headers_and_logs() {
    let copied = copied_response_headers(Some("deny".to_string()), None, Some("r1".to_string()));
    assert_eq!(
        copied,
        vec![
            ("x-gateway-decision".to_string(), "deny".to_string()),
            ("x-gateway-revision".to_string(), "r1".to_string()),
        ]
    );
    assert_eq!(
        log_message(None, "", "t", "rt", "rev", 7),
        "observe: decision=unknown reason= tenant=t route=rt revision=rev latency_ms=7"
    );
}
