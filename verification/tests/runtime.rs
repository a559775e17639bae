use gatewayd::models::{PluginManifest, RuntimeState, ValidationResult};
use gatewayd::nginx::{activation_message, nginx_failure, pid_ready, NginxManager};
use gatewayd::runtime::{
    contains_prefixed_file, default_plugin_chain, deploy_target, kind_to_filename, layout_errors,
    live_manifest, live_revision_id, live_seed_dirs, parse_deploy_request, plugin_findings,
    validate_bundle, BundleCheck, DeployError, GatewayRuntime,
};

fn names(v: &[&str]) -> Vec<String> {
    v.iter().map(|s| s.to_string()).collect()
}

fn complete_layout() -> Vec<String> {
    names(&[
        "revision.json",
        "gateway.json",
        "listener.json",
        "plugin-chain.json",
        "router-main.json",
        "service-main.json",
        "plugins",
    ])
}

fn plugin(name: &str, version: &str) -> PluginManifest {
    PluginManifest {
        name: name.to_string(),
        version: version.to_string(),
        wasm_path: format!("plugins/{name}.wasm"),
        sha256: "abc".to_string(),
        failure_mode: "fail-close".to_string(),
        hooks: vec!["on_request_headers".to_string()],
    }
}

fn verdict(valid: bool, conf: Option<&str>) -> ValidationResult {
    ValidationResult {
        revision: "rev-1".to_string(),
        valid,
        rendered_conf: conf.map(|c| c.to_string()),
        errors: if valid { vec![] } else { vec!["missing router resource".to_string()] },
        warnings: vec![],
    }
}

fn runtime() -> GatewayRuntime {
    GatewayRuntime::new(NginxManager::new("/opt/nginx".to_string()))
}

#[test]
fn kinds_map_to_files() {
    assert_eq!(kind_to_filename("Gateway", "x"), Ok("gateway.json".to_string()));
    assert_eq!(kind_to_filename("Listener", "x"), Ok("listener.json".to_string()));
    assert_eq!(kind_to_filename("Router", "main"), Ok("router-main.json".to_string()));
    assert_eq!(kind_to_filename("Service", "backend"), Ok("service-backend.json".to_string()));
    assert_eq!(kind_to_filename("Policy", "p1"), Ok("policy-p1.json".to_string()));
    assert_eq!(kind_to_filename("Unknown", "x"), Err("unsupported kind: Unknown".to_string()));
}

#[test]
fn deploy_body_names_its_target() {
    let t = parse_deploy_request(br#"{"kind":"Router","metadata":{"name":"main"},"spec":{}}"#)
        .ok()
        .unwrap();
    assert_eq!(t.kind, "Router");
    assert_eq!(t.name, "main");
    assert_eq!(t.filename, "router-main.json");
}

fn bad_request(r: Result<gatewayd::runtime::DeployTarget, DeployError>) -> String {
    match r {
        Err(DeployError::BadRequest(m)) => m,
        _ => panic!("expected a bad request"),
    }
}

#[test]
fn deploy_body_errors() {
    assert_eq!(
        bad_request(parse_deploy_request(br#"{"metadata":{"name":"main"}}"#)),
        "missing field: kind"
    );
    assert_eq!(
        bad_request(parse_deploy_request(br#"{"kind":"Router","metadata":{}}"#)),
        "missing field: metadata.name"
    );
    assert_eq!(
        bad_request(parse_deploy_request(br#"{"kind":"Unknown","metadata":{"name":"x"}}"#)),
        "unsupported kind: Unknown"
    );
    assert!(bad_request(parse_deploy_request(b"not json")).starts_with("JSON parse error: "));
    assert_eq!(
        bad_request(deploy_target(Err("eof".to_string()))),
        "JSON parse error: eof"
    );
}

#[test]
fn live_revision_defaults() {
    assert_eq!(live_revision_id(1745900000), "live-1745900000");
    let m = live_manifest(42);
    assert_eq!(m.revision, "live-42");
    assert_eq!(m.created_at, "live-42");
    assert_eq!(m.runtime_compat, "live");
    assert!(m.plugins.is_empty());
    assert_eq!(
        default_plugin_chain(),
        names(&["tenant-filter", "auth-filter", "header-filter", "rate-limit-filter", "observe-filter"])
    );
    let mut state = RuntimeState::default();
    assert!(live_seed_dirs(&state).is_empty());
    state.current_revision_path = Some("/data/rev".to_string());
    assert_eq!(live_seed_dirs(&state), names(&["plugins", "data"]));
}

#[test]
fn layout_problems_are_listed_in_order() {
    assert!(layout_errors(&complete_layout()).is_empty());
    assert_eq!(
        layout_errors(&names(&["gateway.json", "router-x.txt"])),
        names(&[
            "missing required file: revision.json",
            "missing required file: listener.json",
            "missing required file: plugin-chain.json",
            "missing router resource",
            "missing service resource",
        ])
    );
    assert!(contains_prefixed_file(&names(&["a", "router-a.json"]), "router-"));
    assert!(!contains_prefixed_file(&names(&["router-a.yaml"]), "router-"));
}

#[test]
fn incomplete_layout_fails_validation() {
    let v = validate_bundle(Some("live"), &names(&["revision.json"]), None).unwrap();
    assert_eq!(v.revision, "live");
    assert!(!v.valid);
    assert!(v.rendered_conf.is_none());
    assert_eq!(v.errors.len(), 5);
    let v = validate_bundle(None, &names(&[]), None).unwrap();
    assert_eq!(v.revision, "unknown");
}

#[test]
fn complete_layout_needs_the_bundle_check() {
    assert!(validate_bundle(Some("rev"), &complete_layout(), None).is_none());
}

#[test]
fn bundle_check_gives_the_verdict() {
    let check = BundleCheck {
        revision: "local-dev-002".to_string(),
        plugins: vec![plugin("tenant-filter", "1.0.0"), plugin("rate-limit-filter", "0.9.0")],
        wasm_present: vec![true, true],
        rendered_conf: "/gen/local-dev-002/nginx.conf".to_string(),
        nginx_error: None,
    };
    let v = validate_bundle(Some("dir"), &complete_layout(), Some(&check)).unwrap();
    assert_eq!(v.revision, "local-dev-002");
    assert!(v.valid);
    assert_eq!(v.rendered_conf.as_deref(), Some("/gen/local-dev-002/nginx.conf"));
    assert!(v.errors.is_empty());
    assert_eq!(v.warnings, names(&["plugin rate-limit-filter uses pre-1.0 version 0.9.0"]));

    let check = BundleCheck {
        wasm_present: vec![false, true],
        nginx_error: Some("nginx: test failed".to_string()),
        ..check
    };
    let v = validate_bundle(Some("dir"), &complete_layout(), Some(&check)).unwrap();
    assert!(!v.valid);
    assert_eq!(
        v.errors,
        names(&["missing wasm module: plugins/tenant-filter.wasm", "nginx: test failed"])
    );
}

#[test]
fn plugin_findings_separate_errors_and_warnings() {
    let (e, w) = plugin_findings(&vec![plugin("a", "0.1"), plugin("b", "10.0")], &vec![true, false]);
    assert_eq!(e, names(&["missing wasm module: plugins/b.wasm"]));
    assert_eq!(w, names(&["plugin a uses pre-1.0 version 0.1"]));
}

#[test]
fn invalid_revision_is_not_activated() {
    let rt = runtime();
    let mut state = RuntimeState::default();
    let r = rt.load_revision(&mut state, "/rev", verdict(false, None), None).unwrap();
    assert_eq!(r.status, "validation_failed");
    assert_eq!(r.message, "revision did not pass validation");
    assert_eq!(r.revision.as_deref(), Some("rev-1"));
    assert_eq!(state.metrics.gateway_reload_total, 0);
    assert!(state.current_revision.is_none());
    let snap = state.last_validation.unwrap();
    assert!(!snap.valid);
    assert_eq!(snap.errors, names(&["missing router resource"]));
}

#[test]
fn successful_load_becomes_current() {
    let rt = runtime();
    let mut state = RuntimeState::default();
    let r = rt
        .load_revision(&mut state, "/data/rev-1", verdict(true, Some("/gen/nginx.conf")), Some(Ok("ok".to_string())))
        .unwrap();
    assert_eq!(r.status, "loaded");
    assert_eq!(r.message, "ok");
    assert_eq!(state.metrics.gateway_reload_total, 1);
    assert_eq!(state.metrics.gateway_reload_failures_total, 0);
    assert_eq!(state.current_revision.as_deref(), Some("rev-1"));
    assert_eq!(state.current_revision_path.as_deref(), Some("/data/rev-1"));
    let status = state.last_reload_status.unwrap();
    assert!(status.success);
    assert_eq!(status.message, "ok");
}

#[test]
fn failed_reload_is_counted() {
    let rt = runtime();
    let mut state = RuntimeState::default();
    state.current_revision = Some("old".to_string());
    let r = rt
        .load_revision(
            &mut state,
            "/data/rev-1",
            verdict(true, Some("/gen/nginx.conf")),
            Some(Err("nginx: bind() failed".to_string())),
        )
        .unwrap();
    assert_eq!(r.status, "reload_failed");
    assert_eq!(r.message, "nginx: bind() failed");
    assert_eq!(state.metrics.gateway_reload_total, 1);
    assert_eq!(state.metrics.gateway_reload_failures_total, 1);
    assert_eq!(state.current_revision.as_deref(), Some("old"));
    assert!(!state.last_reload_status.unwrap().success);
}

#[test]
fn valid_verdict_without_conf_is_an_error() {
    let rt = runtime();
    let mut state = RuntimeState::default();
    let r = rt.load_revision(&mut state, "/rev", verdict(true, None), None);
    assert_eq!(r.err(), Some("missing rendered conf".to_string()));
}

#[test]
fn deploy_statuses() {
    let rt = runtime();
    let target = || parse_deploy_request(br#"{"kind":"Service","metadata":{"name":"backend"}}"#).ok().unwrap();
    let mut state = RuntimeState::default();
    let staged = rt.deploy_resource(&mut state, target(), "/live", verdict(false, None), None).ok().unwrap();
    assert_eq!(staged.status, "staged");
    assert_eq!(staged.message, "resource saved; bundle not yet complete");
    assert_eq!(staged.kind, "Service");
    assert_eq!(staged.name, "backend");
    let applied = rt
        .deploy_resource(&mut state, target(), "/live", verdict(true, Some("/c")), Some(Ok("ok".to_string())))
        .ok()
        .unwrap();
    assert_eq!(applied.status, "applied");
    assert_eq!(state.current_revision_path.as_deref(), Some("/live"));
    let failed = rt
        .deploy_resource(&mut state, target(), "/live", verdict(true, Some("/c")), Some(Err("boom".to_string())))
        .ok()
        .unwrap();
    assert_eq!(failed.status, "failed");
    assert_eq!(failed.message, "boom");
    assert_eq!(state.metrics.gateway_reload_total, 2);
    assert_eq!(state.metrics.gateway_reload_failures_total, 1);
    match rt.deploy_resource(&mut state, target(), "/live", verdict(true, None), None) {
        Err(DeployError::Internal(m)) => assert_eq!(m, "missing rendered conf"),
        _ => panic!("expected an internal error"),
    }
}

#[test]
fn nginx_output_handling() {
    assert!(pid_ready(Some(" 1234\n")));
    assert!(!pid_ready(Some("")));
    assert!(!pid_ready(Some("12a")));
    assert!(!pid_ready(None));
    assert_eq!(activation_message("  \n"), "ok");
    assert_eq!(activation_message("signal sent\n"), "signal sent\n");
    assert_eq!(nginx_failure("  nginx: [emerg] bad\n"), "nginx: [emerg] bad");
}
