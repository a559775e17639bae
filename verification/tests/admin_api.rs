use gatewayd::admin::{
    base_headers, count_check, deploy_http_status, header_or_uuid, header_value, key_gate,
    load_http_status, metrics_text, rate_gate, record_duration, resolve_check_request,
    route_request, service_for_route, tenant_gate, AdminRoute, CheckRequest,
};
use gatewayd::models::{
    DeployResult, DestinationConfig, GatewayDocument, GatewaySpec, ListenerDocument, ListenerSpec,
    LoadBalancing, LoadResult, Metadata, MetricsState, PathMatchType, PluginManifest, PolicyDocument,
    PolicyEntry, PolicySpec, RevisionBundle, RevisionManifest, RouterConfig, RouterDocument,
    RouterRule, RouterSpec, ServiceDocument, ServiceSpec, TargetRef,
};
use gatewayd::providers::RateLimitDecision;
use gatewayd::runtime::DeployError;

fn router(name: &str, service: &str) -> RouterDocument {
    RouterDocument {
        metadata: Metadata { name: name.to_string() },
        spec: RouterSpec {
            priority: 100,
            match_type: PathMatchType::Regex,
            target_ref: TargetRef { kind: "Listener".to_string(), name: "lst".to_string() },
            rules: vec![RouterRule { path: "^/api".to_string(), methods: vec![] }],
            config: RouterConfig {
                destinations: vec![DestinationConfig {
                    destination_ref: TargetRef { kind: "Service".to_string(), name: service.to_string() },
                    weight: 100,
                }],
            },
        },
    }
}

fn service(name: &str) -> ServiceDocument {
    ServiceDocument {
        metadata: Metadata { name: name.to_string() },
        spec: ServiceSpec { protocol: "HTTP".to_string(), load_balancing: LoadBalancing { targets: vec![] } },
    }
}

fn policy(target: &str, file: &str) -> PolicyEntry {
    PolicyEntry {
        document: PolicyDocument {
            metadata: Metadata { name: file.to_string() },
            spec: PolicySpec {
                target_ref: TargetRef { kind: "Service".to_string(), name: target.to_string() },
                order: 100,
            },
        },
        source_file: format!("/data/rev/{file}"),
    }
}

fn bundle() -> RevisionBundle {
    RevisionBundle {
        root: "/data/rev".to_string(),
        manifest: RevisionManifest {
            revision: "rev-7".to_string(),
            created_at: "now".to_string(),
            runtime_compat: "v1".to_string(),
            plugins: vec![PluginManifest {
                name: "tenant-filter".to_string(),
                version: "1.0.0".to_string(),
                wasm_path: "plugins/tenant-filter.wasm".to_string(),
                sha256: "abc".to_string(),
                failure_mode: "fail-close".to_string(),
                hooks: vec![],
            }],
        },
        gateway: GatewayDocument { metadata: Metadata { name: "gw".to_string() }, spec: GatewaySpec::default() },
        listener: ListenerDocument {
            metadata: Metadata { name: "lst".to_string() },
            spec: ListenerSpec {
                protocol: "HTTP".to_string(),
                port: 8080,
                host: "0.0.0.0".to_string(),
                allowed_hostnames: vec![],
            },
        },
        routers: vec![router("orders-route", "orders-svc"), router("users-route", "users-svc")],
        services: vec![service("first-svc"), service("orders-svc")],
        policies: vec![
            policy("orders-svc", "policy-a.json"),
            policy("other-svc", "policy-b.json"),
            policy("orders-route-v2", "policy-c.json"),
        ],
        plugin_chain: vec!["tenant-filter".to_string(), "auth-filter".to_string()],
    }
}

fn headers(pairs: &[(&str, &str)]) -> Vec<(String, String)> {
    pairs.iter().map(|(k, v)| (k.to_string(), v.to_string())).collect()
}

fn request(tenant: &str, key: &str) -> CheckRequest {
    CheckRequest {
        request_id: "req-1".to_string(),
        trace_id: "trace-1".to_string(),
        tenant_id: tenant.to_string(),
        route_id: "orders-route".to_string(),
        service_id: "orders-svc".to_string(),
        api_key: key.to_string(),
    }
}

fn is_uuid(s: &str) -> bool {
    s.len() == 36
        && s.chars().enumerate().all(|(i, c)| {
            if [8, 13, 18, 23].contains(&i) {
                c == '-'
            } else {
                c.is_ascii_digit() || ('a'..='f').contains(&c)
            }
        })
        && s.as_bytes()[14] == b'4'
}

#[test]
fn routes_follow_the_admin_api() {
    assert!(matches!(route_request("GET", "/status"), AdminRoute::Status));
    assert!(matches!(route_request("GET", "/metrics"), AdminRoute::Metrics));
    assert!(matches!(route_request("POST", "/plugin-check"), AdminRoute::PluginCheck));
    assert!(matches!(route_request("GET", "/plugin-check"), AdminRoute::PluginCheck));
    assert!(matches!(route_request("POST", "/deploy"), AdminRoute::Deploy));
    assert!(matches!(route_request("POST", "/admin/revisions/load"), AdminRoute::LoadRevision));
    assert!(matches!(route_request("POST", "/admin/config"), AdminRoute::LoadRevision));
    assert!(matches!(route_request("GET", "/deploy"), AdminRoute::NotFound));
    assert!(matches!(route_request("POST", "/status"), AdminRoute::NotFound));
    assert!(matches!(route_request("GET", "/nowhere"), AdminRoute::NotFound));
}

#[test]
fn metrics_exposition_has_help_and_type() {
    let mut m = MetricsState::default();
    m.gateway_reload_total = 3;
    m.gateway_requests_total = 1024;
    m.gateway_rate_limit_denied_total = 5;
    let text = metrics_text(&m);
    assert!(text.starts_with(
        "# HELP gateway_reload_total Total nginx reload attempts\n# TYPE gateway_reload_total counter\ngateway_reload_total 3\n"
    ));
    assert!(text.contains("gateway_requests_total 1024\n"));
    assert!(text.contains("# HELP gateway_policy_denied_total Total requests denied by policy\n"));
    assert!(text.ends_with("gateway_rate_limit_denied_total 5\n"));
    assert_eq!(text.lines().count(), 24);
}

fn deploy_result(status: &str) -> DeployResult {
    DeployResult {
        kind: "Service".to_string(),
        name: "s".to_string(),
        status: status.to_string(),
        message: String::new(),
        validation: None,
    }
}

#[test]
fn answer_codes() {
    assert_eq!(deploy_http_status(&Ok(deploy_result("applied"))), 200);
    assert_eq!(deploy_http_status(&Ok(deploy_result("staged"))), 202);
    assert_eq!(deploy_http_status(&Ok(deploy_result("failed"))), 500);
    assert_eq!(deploy_http_status(&Err(DeployError::BadRequest("x".to_string()))), 400);
    assert_eq!(deploy_http_status(&Err(DeployError::Internal("x".to_string()))), 500);
    let load = |status: &str| LoadResult {
        revision: None,
        status: status.to_string(),
        message: String::new(),
        validation: None,
    };
    assert_eq!(load_http_status(&load("loaded")), 200);
    assert_eq!(load_http_status(&load("validation_failed")), 400);
    assert_eq!(load_http_status(&load("reload_failed")), 400);
}

#[test]
fn header_names_ignore_ascii_case() {
    let h = headers(&[("x-tenant-id", "t1"), ("X-TENANT-ID", "t2")]);
    assert_eq!(header_value(&h, "X-Tenant-Id"), Some("t1".to_string()));
    assert_eq!(header_value(&h, "X-Route-Id"), None);
    assert_eq!(header_or_uuid(&h, "X-Tenant-Id"), "t1");
    let fresh = header_or_uuid(&h, "X-Request-Id");
    assert!(is_uuid(&fresh), "{fresh}");
    assert_ne!(fresh, header_or_uuid(&h, "X-Request-Id"));
}

#[test]
fn route_service_resolution() {
    let b = bundle();
    assert_eq!(service_for_route(&b, "users-route-1"), Some("users-svc".to_string()));
    assert_eq!(service_for_route(&b, "/anything"), Some("orders-svc".to_string()));
    assert_eq!(service_for_route(&b, "unknown-route"), Some("first-svc".to_string()));
    let mut empty = bundle();
    empty.routers.clear();
    empty.services.clear();
    assert_eq!(service_for_route(&empty, "x"), None);
}

#[test]
fn check_request_from_headers() {
    let b = bundle();
    let r = resolve_check_request(
        &headers(&[("X-Request-Id", "r-1"), ("X-Tenant-Id", "t1"), ("X-Route-Id", "users-route")]),
        &b,
    );
    assert_eq!(r.request_id, "r-1");
    assert!(is_uuid(&r.trace_id));
    assert_eq!(r.tenant_id, "t1");
    assert_eq!(r.route_id, "users-route");
    assert_eq!(r.service_id, "users-svc");
    assert_eq!(r.api_key, "");
    let r = resolve_check_request(&headers(&[]), &b);
    assert_eq!(r.tenant_id, "");
    assert_eq!(r.route_id, "unknown-route");
    assert_eq!(r.service_id, "first-svc");
    let r = resolve_check_request(&headers(&[("X-Service-Id", "explicit")]), &b);
    assert_eq!(r.service_id, "explicit");
}

#[test]
fn base_headers_describe_the_revision() {
    let h = base_headers(&request("t1", "k"), &bundle());
    assert_eq!(h.len(), 10);
    assert_eq!(h[0], ("X-Request-Id".to_string(), "req-1".to_string()));
    assert_eq!(h[5], ("X-Gateway-Revision".to_string(), "rev-7".to_string()));
    assert_eq!(h[6], ("X-Gateway-Plugin-Chain".to_string(), "tenant-filter,auth-filter".to_string()));
    assert_eq!(h[7], ("X-Gateway-Policy-Profile".to_string(), "default".to_string()));
    assert_eq!(h[8], ("X-Gateway-Plugin-Version".to_string(), "tenant-filter:1.0.0".to_string()));
    assert_eq!(
        h[9],
        ("X-Gateway-Policy-Files".to_string(), "policy-a.json,policy-c.json".to_string())
    );
}

#[test]
fn checks_are_counted() {
    let mut m = MetricsState::default();
    count_check(&mut m, 5);
    assert_eq!(m.gateway_requests_total, 1);
    assert_eq!(m.gateway_plugin_executions_total, 5);
    record_duration(&mut m, 12);
    assert_eq!(m.gateway_request_duration_ms, 12);
}

#[test]
fn missing_tenant_is_denied() {
    let r = request("", "");
    let base = base_headers(&r, &bundle());
    let mut m = MetricsState::default();
    let d = tenant_gate(&r, &base, &mut m).unwrap();
    assert_eq!(d.status, 401);
    let e = d.error.unwrap();
    assert_eq!(e.code, "missing_tenant");
    assert_eq!(e.message, "tenant header is required");
    assert_eq!(e.request_id, "req-1");
    assert_eq!(d.headers[10], ("X-Gateway-Decision".to_string(), "deny".to_string()));
    assert_eq!(d.headers[11], ("X-Gateway-Decision-Reason".to_string(), "missing_tenant".to_string()));
    assert_eq!(m.gateway_policy_denied_total, 1);
    assert!(tenant_gate(&request("t1", ""), &base, &mut m).is_none());
    assert_eq!(m.gateway_policy_denied_total, 1);
}

#[test]
fn wrong_key_is_denied() {
    let r = request("t1", "wrong");
    let base = base_headers(&r, &bundle());
    let mut m = MetricsState::default();
    let d = key_gate(&r, Some("right".to_string()), &base, &mut m).unwrap();
    assert_eq!(d.status, 401);
    assert_eq!(d.error.unwrap().code, "unauthorized");
    assert_eq!(m.gateway_policy_denied_total, 1);
    assert!(key_gate(&r, None, &base, &mut m).is_none());
    assert!(key_gate(&request("t1", "right"), Some("right".to_string()), &base, &mut m).is_none());
    assert_eq!(m.gateway_policy_denied_total, 1);
}

#[test]
fn rate_limit_decides_the_rest() {
    let r = request("t1", "k");
    let base = base_headers(&r, &bundle());
    let mut m = MetricsState::default();
    let denied = RateLimitDecision { allowed: false, limit: 2, remaining: 0, window_seconds: 60 };
    let d = rate_gate(&r, &denied, &base, &mut m);
    assert_eq!(d.status, 429);
    let e = d.error.unwrap();
    assert_eq!(e.code, "rate_limited");
    assert_eq!(e.message, "rate limit exceeded");
    assert_eq!(m.gateway_rate_limit_denied_total, 1);
    let allowed = RateLimitDecision { allowed: true, limit: 2, remaining: 1, window_seconds: 60 };
    let ok = rate_gate(&r, &allowed, &base, &mut m);
    assert_eq!(ok.status, 200);
    assert!(ok.error.is_none());
    assert_eq!(ok.headers.len(), 15);
    assert_eq!(ok.headers[10], ("X-Gateway-Decision".to_string(), "allow".to_string()));
    assert_eq!(ok.headers[12], ("X-Auth-Subject".to_string(), "t1".to_string()));
    assert_eq!(ok.headers[14], ("X-Gateway-Limit-Remaining".to_string(), "1".to_string()));
    assert_eq!(m.gateway_rate_limit_denied_total, 1);
}

#[test]
fn service_resolution_needs_a_destination() {
    let mut b = bundle();
    b.routers[0].spec.config.destinations.clear();
    assert!(!gatewayd::admin::can_resolve_service(&headers(&[("X-Route-Id", "orders-route")]), &b));
    assert!(gatewayd::admin::can_resolve_service(&headers(&[("X-Route-Id", "users-route")]), &b));
    assert!(gatewayd::admin::can_resolve_service(
        &headers(&[("X-Route-Id", "orders-route"), ("X-Service-Id", "s")]),
        &b
    ));
    assert_eq!(gatewayd::admin::router_destination(&b.routers[0]), None);
    assert_eq!(gatewayd::admin::router_destination(&b.routers[1]), Some("users-svc".to_string()));
}

#[test]
fn quota_is_spent_only_by_the_last_step() {
    let r = request("t1", "k");
    let base = base_headers(&r, &bundle());
    let mut m = MetricsState::default();
    let config = gatewayd::providers::RateLimitConfig {
        default: gatewayd::providers::RateLimitRule { requests: 1, window_seconds: 60 },
        limits: vec![],
    };
    let mut buckets = gatewayd::providers::RateLimitState::default();
    let ok = gatewayd::admin::check_quota(&r, &Some("k".to_string()), &config, &mut buckets, 1000, &base, &mut m);
    assert_eq!(ok.status, 200);
    assert_eq!(ok.headers[14], ("X-Gateway-Limit-Remaining".to_string(), "0".to_string()));
    assert_eq!(buckets.buckets.len(), 1);
    assert_eq!(buckets.buckets[0].0, "t1:orders-svc:orders-route");
    let denied = gatewayd::admin::check_quota(&r, &None, &config, &mut buckets, 1001, &base, &mut m);
    assert_eq!(denied.status, 429);
    assert_eq!(denied.error.unwrap().code, "rate_limited");
    assert_eq!(m.gateway_rate_limit_denied_total, 1);
    assert_eq!(buckets.buckets[0].1.count, 1);
}
