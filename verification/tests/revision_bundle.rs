use gatewayd::models::{
    DestinationConfig, GatewayDocument, GatewaySpec, ListenerDocument, ListenerSpec, LoadBalancing,
    Metadata, PathMatchType, PluginChainDocument, PluginManifest, PolicyDocument, PolicyEntry,
    PolicySpec, RevisionBundle, RevisionManifest, RouterConfig, RouterDocument, RouterRule,
    RouterSpec, ServiceDocument, ServiceSpec, TargetRef, UpstreamTarget,
};
use gatewayd::revision::{
    load_revision_bundle, merge_service_documents, order_policies, sorted_resource_files,
};

fn names(v: &[&str]) -> Vec<String> {
    v.iter().map(|s| s.to_string()).collect()
}

fn router(name: &str, path: &str) -> RouterDocument {
    RouterDocument {
        metadata: Metadata { name: name.to_string() },
        spec: RouterSpec {
            priority: 100,
            match_type: PathMatchType::Regex,
            target_ref: TargetRef { kind: "Listener".to_string(), name: "lst".to_string() },
            rules: vec![RouterRule { path: path.to_string(), methods: vec![] }],
            config: RouterConfig {
                destinations: vec![DestinationConfig {
                    destination_ref: TargetRef { kind: "Service".to_string(), name: "svc".to_string() },
                    weight: 100,
                }],
            },
        },
    }
}

fn service(name: &str, host: &str, port: u16, weight: u16) -> ServiceDocument {
    ServiceDocument {
        metadata: Metadata { name: name.to_string() },
        spec: ServiceSpec {
            protocol: "HTTP".to_string(),
            load_balancing: LoadBalancing {
                targets: vec![UpstreamTarget { host: host.to_string(), port, weight }],
            },
        },
    }
}

fn manifest(revision: &str, plugins: Vec<PluginManifest>) -> RevisionManifest {
    RevisionManifest {
        revision: revision.to_string(),
        created_at: "2026-01-01T00:00:00Z".to_string(),
        runtime_compat: "test".to_string(),
        plugins,
    }
}

fn listener() -> ListenerDocument {
    ListenerDocument {
        metadata: Metadata { name: "lst".to_string() },
        spec: ListenerSpec {
            protocol: "HTTP".to_string(),
            port: 8080,
            host: "0.0.0.0".to_string(),
            allowed_hostnames: vec![],
        },
    }
}

fn gateway() -> GatewayDocument {
    GatewayDocument { metadata: Metadata { name: "gw".to_string() }, spec: GatewaySpec::default() }
}

fn chain(v: &[&str]) -> PluginChainDocument {
    PluginChainDocument { plugins: names(v) }
}

fn minimal_files() -> Vec<String> {
    names(&[
        "revision.json",
        "gateway.json",
        "listener.json",
        "plugin-chain.json",
        "router-main.json",
        "service-main.json",
    ])
}

/// The bundle of the minimal revision, with the routers and services of
/// the listed files (in the order the file names sort).
fn minimal_bundle(
    revision: &str,
    files: &Vec<String>,
    router_of: impl Fn(&str) -> RouterDocument,
    service_of: impl Fn(&str) -> ServiceDocument,
    plugin_chain: PluginChainDocument,
) -> RevisionBundle {
    let routers = sorted_resource_files(files, "router-").iter().map(|f| router_of(f)).collect();
    let services = sorted_resource_files(files, "service-").iter().map(|f| service_of(f)).collect();
    load_revision_bundle(
        "/data/rev".to_string(),
        manifest(revision, vec![]),
        plugin_chain,
        gateway(),
        listener(),
        routers,
        services,
        vec![],
    )
}

fn main_router(file: &str) -> RouterDocument {
    match file {
        "router-main.json" => router("main-route", "^/api(/.*)?$"),
        "router-users.json" => router("users-route", "^/users(/.*)?$"),
        other => panic!("unexpected router file {other}"),
    }
}

fn main_service(file: &str) -> ServiceDocument {
    match file {
        "service-main.json" => service("svc", "127.0.0.1", 8000, 100),
        "service-users.json" => service("users-svc", "10.0.0.2", 8001, 50),
        other => panic!("unexpected service file {other}"),
    }
}

#[test]
fn load_valid_bundle_returns_all_fields() {
    let bundle = minimal_bundle(
        "rev-001",
        &minimal_files(),
        main_router,
        main_service,
        chain(&["tenant-filter", "auth-filter"]),
    );
    assert_eq!(bundle.manifest.revision, "rev-001");
    assert_eq!(bundle.listener.spec.port, 8080);
    assert_eq!(bundle.routers.len(), 1);
    assert_eq!(bundle.routers[0].metadata.name, "main-route");
    assert!(bundle.services.iter().any(|s| s.metadata.name == "svc"));
    let svc = bundle.services.iter().find(|s| s.metadata.name == "svc").unwrap();
    assert_eq!(svc.spec.load_balancing.targets[0].port, 8000);
    assert_eq!(bundle.plugin_chain, ["tenant-filter", "auth-filter"]);
}

#[test]
fn load_bundle_multiple_routers_sorted_alphabetically() {
    let mut files = minimal_files();
    files.push("router-users.json".to_string());
    let bundle = minimal_bundle("rev-002", &files, main_router, main_service, chain(&["tenant-filter"]));
    assert_eq!(bundle.routers.len(), 2);
    assert_eq!(bundle.routers[0].metadata.name, "main-route");
    assert_eq!(bundle.routers[1].metadata.name, "users-route");
}

#[test]
fn load_bundle_multiple_services_loaded_into_hashmap() {
    let mut files = minimal_files();
    files.push("service-users.json".to_string());
    let bundle = minimal_bundle("rev-003", &files, main_router, main_service, chain(&["tenant-filter"]));
    assert_eq!(bundle.services.len(), 2);
    assert!(bundle.services.iter().any(|s| s.metadata.name == "svc"));
    assert!(bundle.services.iter().any(|s| s.metadata.name == "users-svc"));
    let users = bundle.services.iter().find(|s| s.metadata.name == "users-svc").unwrap();
    assert_eq!(users.spec.load_balancing.targets[0].port, 8001);
}

#[test]
fn load_bundle_empty_plugin_chain_is_ok() {
    let bundle = minimal_bundle("rev-004", &minimal_files(), main_router, main_service, chain(&[]));
    assert!(bundle.plugin_chain.is_empty());
}

#[test]
fn load_bundle_with_plugins_in_manifest() {
    let plugin = PluginManifest {
        name: "tenant-filter".to_string(),
        version: "1.0.0".to_string(),
        wasm_path: "plugins/tenant-filter.wasm".to_string(),
        sha256: "abc".to_string(),
        failure_mode: "fail-close".to_string(),
        hooks: vec!["on_request_headers".to_string()],
    };
    let bundle = load_revision_bundle(
        "/data/rev".to_string(),
        manifest("rev-plugins", vec![plugin]),
        chain(&["tenant-filter"]),
        gateway(),
        listener(),
        vec![router("r", "^/")],
        vec![service("svc", "127.0.0.1", 8000, 100)],
        vec![],
    );
    assert_eq!(bundle.manifest.plugins.len(), 1);
    assert_eq!(bundle.manifest.plugins[0].name, "tenant-filter");
    assert_eq!(bundle.manifest.plugins[0].failure_mode, "fail-close");
}

#[test]
fn resource_files_are_filtered_and_sorted() {
    let files = names(&[
        "router-zeta.json",
        "router-alpha.json",
        "router-b.yaml",
        "service-a.json",
        "router-Beta.json",
        "router-.json",
    ]);
    assert_eq!(
        sorted_resource_files(&files, "router-"),
        names(&["router-.json", "router-Beta.json", "router-alpha.json", "router-zeta.json"])
    );
    assert!(sorted_resource_files(&files, "policy-").is_empty());
}

#[test]
fn later_service_with_same_name_replaces_earlier() {
    let merged = merge_service_documents(vec![
        service("a", "10.0.0.1", 1, 1),
        service("b", "10.0.0.2", 2, 1),
        service("a", "10.0.0.3", 3, 1),
    ]);
    assert_eq!(merged.len(), 2);
    assert_eq!(merged[0].metadata.name, "a");
    assert_eq!(merged[0].spec.load_balancing.targets[0].port, 3);
    assert_eq!(merged[1].metadata.name, "b");
}

fn policy(file: &str, order: u16) -> PolicyEntry {
    PolicyEntry {
        document: PolicyDocument {
            metadata: Metadata { name: file.to_string() },
            spec: PolicySpec {
                target_ref: TargetRef { kind: "Service".to_string(), name: "svc".to_string() },
                order,
            },
        },
        source_file: format!("/data/rev/{file}"),
    }
}

#[test]
fn policies_are_ordered_stably() {
    let ordered = order_policies(vec![
        policy("policy-a.json", 300),
        policy("policy-b.json", 100),
        policy("policy-c.json", 300),
        policy("policy-d.json", 100),
    ]);
    let files: Vec<&str> = ordered.iter().map(|p| p.document.metadata.name.as_str()).collect();
    assert_eq!(files, ["policy-b.json", "policy-d.json", "policy-a.json", "policy-c.json"]);
}
