use gatewayd::rate_limit::{rate_limit_action, rate_limit_applies, RateLimitAction, CAS_ATTEMPTS};
use gatewayd::rate_limit::{
    bucket_key, bucket_step, decode_bucket, encode_bucket, extract_u64, extract_u64_inline,
    find_rule, parse_config, RateLimitRule,
};

#[test]
fn encode_decode_bucket_roundtrip() {
    let encoded = encode_bucket(1_700_000_000, 42);
    let (ws, cnt) = decode_bucket(Some(&encoded));
    assert_eq!(ws, 1_700_000_000);
    assert_eq!(cnt, 42);
}

#[test]
fn encode_decode_max_values() {
    let encoded = encode_bucket(u64::MAX, u64::MAX);
    let (ws, cnt) = decode_bucket(Some(&encoded));
    assert_eq!(ws, u64::MAX);
    assert_eq!(cnt, u64::MAX);
}

#[test]
fn decode_bucket_none_returns_zeros() {
    assert_eq!(decode_bucket(None), (0, 0));
}

#[test]
fn decode_bucket_too_short_returns_zeros() {
    assert_eq!(decode_bucket(Some(&[1, 2, 3])), (0, 0));
}

#[test]
fn decode_bucket_exactly_16_bytes() {
    let encoded = encode_bucket(100, 5);
    assert_eq!(encoded.len(), 16);
    let (ws, cnt) = decode_bucket(Some(&encoded));
    assert_eq!(ws, 100);
    assert_eq!(cnt, 5);
}

#[test]
fn encode_bucket_is_little_endian() {
    assert_eq!(
        encode_bucket(1, 0x0102),
        vec![1, 0, 0, 0, 0, 0, 0, 0, 2, 1, 0, 0, 0, 0, 0, 0]
    );
}

#[test]
fn parse_config_empty_string_uses_defaults() {
    let mut rules = Vec::new();
    let mut reqs = 60u64;
    let mut win = 60u64;
    parse_config("", &mut rules, &mut reqs, &mut win);
    assert!(rules.is_empty());
    assert_eq!(reqs, 60);
    assert_eq!(win, 60);
}

#[test]
fn parse_config_overrides_default_values() {
    let cfg = r#"{"default":{"requests":100,"window_seconds":30}}"#;
    let mut rules = Vec::new();
    let mut reqs = 60u64;
    let mut win = 60u64;
    parse_config(cfg, &mut rules, &mut reqs, &mut win);
    assert_eq!(reqs, 100);
    assert_eq!(win, 30);
}

#[test]
fn parse_config_limits_creates_rules() {
    let cfg = r#"{"default":{"requests":60,"window_seconds":60},"limits":{"tenant-a":{"requests":10,"window_seconds":5},"tenant-b":{"requests":20,"window_seconds":10}}}"#;
    let mut rules = Vec::new();
    let mut reqs = 60u64;
    let mut win = 60u64;
    parse_config(cfg, &mut rules, &mut reqs, &mut win);
    assert_eq!(rules.len(), 2);
    let a = rules.iter().find(|r| r.key == "tenant-a").unwrap();
    assert_eq!(a.requests, 10);
    assert_eq!(a.window_secs, 5);
    let b = rules.iter().find(|r| r.key == "tenant-b").unwrap();
    assert_eq!(b.requests, 20);
    assert_eq!(b.window_secs, 10);
}

#[test]
fn parse_config_missing_rule_fields_take_updated_defaults() {
    let cfg = r#"{"default":{"requests":7,"window_seconds":9},"limits":{"t":{"requests":3}}}"#;
    let mut rules = Vec::new();
    let mut reqs = 60u64;
    let mut win = 60u64;
    parse_config(cfg, &mut rules, &mut reqs, &mut win);
    assert_eq!(rules.len(), 1);
    assert_eq!(rules[0].key, "t");
    assert_eq!(rules[0].requests, 3);
    assert_eq!(rules[0].window_secs, 9);
}

#[test]
fn extract_u64_overflow_and_missing() {
    assert_eq!(extract_u64_inline(r#"{"n": 18446744073709551615}"#, "n"), Some(u64::MAX));
    assert_eq!(extract_u64_inline(r#"{"n": 18446744073709551616}"#, "n"), None);
    assert_eq!(extract_u64_inline(r#"{"n": "12"}"#, "n"), None);
    assert_eq!(extract_u64_inline(r#"{"m": 1}"#, "n"), None);
    assert_eq!(extract_u64(r#"{"a":{"n":1},"b":{"n":2}}"#, "\"b\"", "n"), Some(2));
}

#[test]
fn find_rule_exact_tenant_service_route_match() {
    let rules = vec![
        RateLimitRule { key: "tenant-a:svc:route-1".to_string(), requests: 5, window_secs: 10 },
    ];
    let (reqs, win) = find_rule(&rules, 60, 60, "tenant-a", "svc", "route-1");
    assert_eq!(reqs, 5);
    assert_eq!(win, 10);
}

#[test]
fn find_rule_tenant_service_match() {
    let rules = vec![
        RateLimitRule { key: "tenant-a:svc".to_string(), requests: 15, window_secs: 30 },
    ];
    let (reqs, win) = find_rule(&rules, 60, 60, "tenant-a", "svc", "any-route");
    assert_eq!(reqs, 15);
    assert_eq!(win, 30);
}

#[test]
fn find_rule_tenant_only_match() {
    let rules = vec![
        RateLimitRule { key: "tenant-a".to_string(), requests: 100, window_secs: 60 },
    ];
    let (reqs, win) = find_rule(&rules, 60, 60, "tenant-a", "any-svc", "any-route");
    assert_eq!(reqs, 100);
    assert_eq!(win, 60);
}

#[test]
fn find_rule_no_match_returns_defaults() {
    let rules = vec![
        RateLimitRule { key: "tenant-x".to_string(), requests: 1, window_secs: 1 },
    ];
    let (reqs, win) = find_rule(&rules, 60, 60, "unknown", "svc", "route");
    assert_eq!(reqs, 60);
    assert_eq!(win, 60);
}

#[test]
fn find_rule_empty_rules_returns_defaults() {
    let (reqs, win) = find_rule(&[], 99, 33, "t", "s", "r");
    assert_eq!(reqs, 99);
    assert_eq!(win, 33);
}

#[test]
fn bucket_step_counts_until_limit_then_denies() {
    let s1 = bucket_step(None, 2, 60, 1000);
    assert!(s1.allowed);
    assert_eq!((s1.window_start, s1.count, s1.remaining), (1000, 1, 1));
    let s2 = bucket_step(Some(&s1.encoded), 2, 60, 1010);
    assert!(s2.allowed);
    assert_eq!((s2.window_start, s2.count, s2.remaining), (1000, 2, 0));
    let s3 = bucket_step(Some(&s2.encoded), 2, 60, 1020);
    assert!(!s3.allowed);
    assert_eq!((s3.count, s3.remaining), (2, 0));
    let s4 = bucket_step(Some(&s3.encoded), 2, 60, 1060);
    assert!(s4.allowed);
    assert_eq!((s4.window_start, s4.count), (1060, 1));
}

#[test]
fn bucket_key_format() {
    assert_eq!(bucket_key("t", "s", "r"), "rl:t:s:r");
}

#[test]
fn shared_record_window_admits_at_most_the_limit() {
    let mut record = gatewayd::rate_limit::encode_bucket(1000, 0);
    let mut admitted = 0;
    for i in 0..8u64 {
        let step = gatewayd::rate_limit::bucket_step(Some(&record), 3, 60, 1000 + i);
        if step.allowed {
            admitted += 1;
        }
        record = step.encoded;
    }
    assert_eq!(admitted, 3);
    assert_eq!(gatewayd::rate_limit::decode_bucket(Some(&record)), (1000, 3));
}

#[test]
fn filter_action_follows_the_stored_step() {
    assert!(!rate_limit_applies(""));
    assert!(rate_limit_applies("t1"));
    assert_eq!(CAS_ATTEMPTS, 5);
    assert!(matches!(rate_limit_action(None), RateLimitAction::Pass));
    assert!(matches!(rate_limit_action(Some((true, 4))), RateLimitAction::Admit { remaining: 4 }));
    assert!(matches!(rate_limit_action(Some((false, 0))), RateLimitAction::Reject));
}
