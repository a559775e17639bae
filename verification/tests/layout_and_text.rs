use gatewayd::{layout, repo_layout};
use gatewayd::models::{
    default_failure_mode, default_host, default_keepalive_connections, default_match_type,
    default_metrics_path, default_metrics_port, default_policy_order, default_protocol,
    default_true, default_weight, default_worker_connections, default_worker_processes,
    GatewaySpec, MetricsState, PathMatchType,
};
use gatewayd::numtext::{dec_of, hex8_of, parse_digits_in};
use gatewayd::order::stable_order_of;
use gatewayd::text::{
    chars_of, concat2, concat3, find_char_in, find_non_digit_in, find_seq_in, join_path, owned,
    rfind_char_in, same_text, skip_ws, string_of, trim_end_at, trim_str,
};

#[test]
fn gateway_layout_under_the_root() {
    let root = "/opt/gw";
    assert_eq!(layout::local_dir(root), "/opt/gw/env/local");
    assert_eq!(layout::run_dir(root), "/opt/gw/runtime/process");
    assert_eq!(layout::fixtures_dir(root), "/opt/gw/fixtures");
    assert_eq!(layout::runtime_dir(root), "/opt/gw/runtime/dataplane");
    assert_eq!(layout::live_dir(root), "/opt/gw/runtime/dataplane/live");
    assert_eq!(layout::nginx_runtime_dir(root), "/opt/gw/runtime/dataplane/nginx");
    assert_eq!(layout::nginx_conf_dir(root), "/opt/gw/runtime/dataplane/nginx/conf");
    assert_eq!(layout::generated_dir(root), "/opt/gw/runtime/dataplane/nginx/generated");
    assert_eq!(layout::log_dir(root), "/opt/gw/runtime/dataplane/logs");
    assert_eq!(layout::state_file(root), "/opt/gw/runtime/dataplane/state.json");
    assert_eq!(layout::rate_limit_state_file(root), "/opt/gw/runtime/dataplane/rate-limit-state.json");
    assert_eq!(layout::project_nginx_bin(root, None), "/opt/gw/bin/nginx");
    assert_eq!(layout::project_nginx_bin(root, Some("/usr/sbin/nginx".to_string())), "/usr/sbin/nginx");
    assert_eq!(layout::runtime_dir("/opt/gw/"), "/opt/gw/runtime/dataplane");
}

#[test]
fn repository_layout() {
    assert_eq!(repo_layout::repo_root("/src/repo/src/gatewayd"), "/src/repo/src/gatewayd/../..");
    let root = "/repo";
    assert_eq!(repo_layout::local_dir(root), "/repo/.local");
    assert_eq!(repo_layout::run_dir(root), "/repo/.run");
    assert_eq!(repo_layout::runtime_config_dir(root), "/repo/src/runtime-config");
    assert_eq!(repo_layout::revisions_dir(root), "/repo/src/runtime-config/revisions");
    assert_eq!(repo_layout::current_link(root), "/repo/src/runtime-config/current");
    assert_eq!(repo_layout::runtime_dir(root), "/repo/src/gateway/runtime");
    assert_eq!(repo_layout::nginx_runtime_dir(root), "/repo/src/gateway/runtime/nginx");
    assert_eq!(repo_layout::nginx_conf_dir(root), "/repo/src/gateway/runtime/nginx/conf");
    assert_eq!(repo_layout::generated_dir(root), "/repo/src/gateway/runtime/nginx/generated");
    assert_eq!(repo_layout::log_dir(root), "/repo/src/gateway/runtime/logs");
    assert_eq!(repo_layout::state_file(root), "/repo/src/gateway/runtime/state.json");
    assert_eq!(repo_layout::rate_limit_state_file(root), "/repo/src/gateway/runtime/rate-limit-state.json");
    assert_eq!(repo_layout::project_nginx_bin(root), "/repo/.local/wasmx/nginx");
}

#[test]
fn path_join_follows_path_rules() {
    assert_eq!(join_path("/a", "b"), "/a/b");
    assert_eq!(join_path("/a/", "b"), "/a/b");
    assert_eq!(join_path("/a", "/b"), "/b");
    assert_eq!(join_path("", "b"), "b");
}

#[test]
fn model_defaults() {
    assert!(default_true());
    assert_eq!(default_weight(), 100);
    assert_eq!(default_host(), "0.0.0.0");
    assert_eq!(default_protocol(), "HTTP");
    assert_eq!(default_failure_mode(), "fail-open");
    assert_eq!(default_policy_order(), 100);
    assert_eq!(default_metrics_path(), "/metrics");
    assert_eq!(default_metrics_port(), 19090);
    assert_eq!(default_worker_processes(), "auto");
    assert_eq!(default_worker_connections(), 1024);
    assert_eq!(default_keepalive_connections(), 32);
    assert!(matches!(default_match_type(), PathMatchType::Regex));
    let spec = GatewaySpec::default();
    assert!(spec.logging.access_log.enabled);
    assert!(!spec.tracing.enabled);
    assert!(spec.metrics.enabled);
    assert_eq!(spec.metrics.path, "/metrics");
    assert_eq!(spec.metrics.port, 19090);
    assert_eq!(spec.server.worker_processes, "auto");
    let m = MetricsState::default();
    assert_eq!(m.gateway_reload_total + m.gateway_requests_total + m.gateway_rate_limit_denied_total, 0);
}

#[test]
fn numbers_as_text() {
    assert_eq!(dec_of(0), vec!['0']);
    assert_eq!(dec_of(1745900000).into_iter().collect::<String>(), "1745900000");
    assert_eq!(dec_of(u64::MAX).into_iter().collect::<String>(), "18446744073709551615");
    assert_eq!(hex8_of(0xab).into_iter().collect::<String>(), "000000ab");
    assert_eq!(hex8_of(u32::MAX).into_iter().collect::<String>(), "ffffffff");
    let v = chars_of("x12345y");
    assert_eq!(parse_digits_in(&v, 1, 6), Some(12345));
    let big = chars_of("18446744073709551616");
    assert_eq!(parse_digits_in(&big, 0, big.len()), None);
    let max = chars_of("18446744073709551615");
    assert_eq!(parse_digits_in(&max, 0, max.len()), Some(u64::MAX));
}

#[test]
fn scanners() {
    let v = chars_of("  a:b:c  ");
    assert_eq!(find_char_in(&v, 0, v.len(), ':'), Some(3));
    assert_eq!(rfind_char_in(&v, 0, v.len(), ':'), Some(5));
    assert_eq!(find_char_in(&v, 6, v.len(), ':'), None);
    assert_eq!(skip_ws(&v, 0, v.len()), 2);
    assert_eq!(trim_end_at(&v, 0, v.len()), 7);
    let pat = chars_of("b:c");
    assert_eq!(find_seq_in(&v, 0, v.len(), &pat), Some(4));
    assert_eq!(find_seq_in(&v, 5, v.len(), &pat), None);
    let d = chars_of("123ab");
    assert_eq!(find_non_digit_in(&d, 0, d.len()), Some(3));
    assert_eq!(string_of(&v, 2, 7), "a:b:c");
    assert_eq!(trim_str("\t hi there \n"), "hi there");
    assert_eq!(concat2("a", "b"), "ab");
    assert_eq!(concat3("a", "b", "c"), "abc");
    assert_eq!(owned("x"), "x");
    assert!(same_text("abc", "abc"));
    assert!(!same_text("abc", "abd"));
}

#[test]
fn stable_order_by_key() {
    assert_eq!(stable_order_of(&vec![3, 1, 3, 0, 1]), vec![3, 1, 4, 0, 2]);
    assert!(stable_order_of(&vec![]).is_empty());
}
