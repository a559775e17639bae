use gatewayd::providers::{
    consume_rate_limit, default_requests, default_window_seconds, load_secret, BucketState,
    RateLimitConfig, RateLimitRule, RateLimitState, SecretConfig,
};

fn rule(requests: u64, window_seconds: u64) -> RateLimitRule {
    RateLimitRule { requests, window_seconds }
}

fn bucket<'a>(state: &'a RateLimitState, key: &str) -> Option<&'a BucketState> {
    state.buckets.iter().find(|(k, _)| k == key).map(|(_, b)| b)
}

#[test]
fn load_secret_finds_the_tenant_key() {
    let secrets = SecretConfig {
        api_keys: vec![
            ("tenant-a".to_string(), "key-a".to_string()),
            ("tenant-b".to_string(), "key-b".to_string()),
        ],
    };
    assert_eq!(load_secret(Some(&secrets), &"tenant-b".to_string()), Some("key-b".to_string()));
    assert_eq!(load_secret(Some(&secrets), &"tenant-c".to_string()), None);
}

#[test]
fn load_secret_without_a_table_is_none() {
    assert_eq!(load_secret(None, &"tenant-a".to_string()), None);
}

#[test]
fn rule_defaults_are_sixty() {
    assert_eq!(default_requests(), 60);
    assert_eq!(default_window_seconds(), 60);
    let d = RateLimitRule::default();
    assert_eq!((d.requests, d.window_seconds), (0, 0));
}

#[test]
fn route_limit_takes_precedence() {
    let config = RateLimitConfig {
        default: rule(100, 60),
        limits: vec![
            ("t1".to_string(), rule(50, 60)),
            ("t1:svc".to_string(), rule(20, 60)),
            ("t1:svc:r1".to_string(), rule(2, 30)),
        ],
    };
    let mut state = RateLimitState::default();
    let d = consume_rate_limit(&config, &mut state, "t1", "svc", "r1", 1000);
    assert!(d.allowed);
    assert_eq!(d.limit, 2);
    assert_eq!(d.window_seconds, 30);
    assert_eq!(d.remaining, 1);
    let b = bucket(&state, "t1:svc:r1").unwrap();
    assert_eq!((b.window_start, b.count), (1000, 1));
}

#[test]
fn service_then_tenant_then_default() {
    let config = RateLimitConfig {
        default: rule(100, 60),
        limits: vec![("t1".to_string(), rule(50, 60)), ("t1:svc".to_string(), rule(20, 60))],
    };
    let mut state = RateLimitState::default();
    assert_eq!(consume_rate_limit(&config, &mut state, "t1", "svc", "r9", 10).limit, 20);
    assert_eq!(consume_rate_limit(&config, &mut state, "t1", "other", "r9", 10).limit, 50);
    assert_eq!(consume_rate_limit(&config, &mut state, "t2", "svc", "r9", 10).limit, 100);
    assert_eq!(state.buckets.len(), 3);
}

#[test]
fn missing_default_admits_nothing() {
    let config = RateLimitConfig::default();
    let mut state = RateLimitState::default();
    let d = consume_rate_limit(&config, &mut state, "t", "s", "r", 500);
    assert!(!d.allowed);
    assert_eq!(d.limit, 0);
    assert_eq!(d.window_seconds, 0);
    assert_eq!(d.remaining, 0);
    let b = bucket(&state, "t:s:r").unwrap();
    assert_eq!((b.window_start, b.count), (500, 0));
}

#[test]
fn window_admits_at_most_the_limit() {
    let config = RateLimitConfig { default: rule(3, 60), limits: vec![] };
    let mut state = RateLimitState::default();
    let mut admitted = 0;
    for i in 0..10u64 {
        if consume_rate_limit(&config, &mut state, "t", "s", "r", 1000 + i).allowed {
            admitted += 1;
        }
    }
    assert_eq!(admitted, 3);
    let b = bucket(&state, "t:s:r").unwrap();
    assert_eq!((b.window_start, b.count), (1000, 3));
}

#[test]
fn window_restarts_after_it_elapses() {
    let config = RateLimitConfig { default: rule(1, 60), limits: vec![] };
    let mut state = RateLimitState::default();
    assert!(consume_rate_limit(&config, &mut state, "t", "s", "r", 1000).allowed);
    assert!(!consume_rate_limit(&config, &mut state, "t", "s", "r", 1059).allowed);
    let d = consume_rate_limit(&config, &mut state, "t", "s", "r", 1060);
    assert!(d.allowed);
    assert_eq!(d.remaining, 0);
    let b = bucket(&state, "t:s:r").unwrap();
    assert_eq!((b.window_start, b.count), (1060, 1));
}

#[test]
fn other_buckets_are_left_alone() {
    let config = RateLimitConfig { default: rule(5, 60), limits: vec![] };
    let mut state = RateLimitState {
        buckets: vec![("x:y:z".to_string(), BucketState { window_start: 7, count: 4 })],
    };
    consume_rate_limit(&config, &mut state, "t", "s", "r", 100);
    let b = bucket(&state, "x:y:z").unwrap();
    assert_eq!((b.window_start, b.count), (7, 4));
    assert_eq!(state.buckets.len(), 2);
}

#[test]
fn existing_bucket_is_updated_in_place() {
    let config = RateLimitConfig { default: rule(5, 60), limits: vec![] };
    let mut state = RateLimitState {
        buckets: vec![("t:s:r".to_string(), BucketState { window_start: 90, count: 4 })],
    };
    let d = consume_rate_limit(&config, &mut state, "t", "s", "r", 100);
    assert!(d.allowed);
    assert_eq!(d.remaining, 0);
    assert_eq!(state.buckets.len(), 1);
    let b = bucket(&state, "t:s:r").unwrap();
    assert_eq!((b.window_start, b.count), (90, 5));
}
