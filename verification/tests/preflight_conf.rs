use gatewayd::models::{
    DestinationConfig, GatewayDocument, GatewaySpec, ListenerDocument, ListenerSpec, LoadBalancing,
    Metadata, PathMatchType, RevisionBundle, RevisionManifest, RouterConfig, RouterDocument,
    RouterRule, RouterSpec, ServiceDocument, ServiceSpec, TargetRef, UpstreamTarget,
};
use gatewayd::nginx::{is_renderable, NginxManager};

fn router(name: &str, rules: Vec<(&str, Vec<&str>)>, service: &str) -> RouterDocument {
    RouterDocument {
        metadata: Metadata { name: name.to_string() },
        spec: RouterSpec {
            priority: 0,
            match_type: PathMatchType::Exact,
            target_ref: TargetRef { kind: "Listener".to_string(), name: "lst".to_string() },
            rules: rules
                .into_iter()
                .map(|(path, methods)| RouterRule {
                    path: path.to_string(),
                    methods: methods.into_iter().map(|m| m.to_string()).collect(),
                })
                .collect(),
            config: RouterConfig {
                destinations: vec![DestinationConfig {
                    destination_ref: TargetRef { kind: "Service".to_string(), name: service.to_string() },
                    weight: 100,
                }],
            },
        },
    }
}

fn bundle(routers: Vec<RouterDocument>, hosts: Vec<&str>) -> RevisionBundle {
    RevisionBundle {
        root: "/data/rev".to_string(),
        manifest: RevisionManifest {
            revision: "rev-9".to_string(),
            created_at: "now".to_string(),
            runtime_compat: "v1".to_string(),
            plugins: vec![],
        },
        gateway: GatewayDocument { metadata: Metadata { name: "gw".to_string() }, spec: GatewaySpec::default() },
        listener: ListenerDocument {
            metadata: Metadata { name: "lst".to_string() },
            spec: ListenerSpec {
                protocol: "HTTP".to_string(),
                port: 8080,
                host: "0.0.0.0".to_string(),
                allowed_hostnames: hosts.into_iter().map(|h| h.to_string()).collect(),
            },
        },
        routers,
        services: vec![ServiceDocument {
            metadata: Metadata { name: "orders-svc".to_string() },
            spec: ServiceSpec {
                protocol: "HTTP".to_string(),
                load_balancing: LoadBalancing {
                    targets: vec![UpstreamTarget { host: "10.0.0.10".to_string(), port: 8080, weight: 100 }],
                },
            },
        }],
        policies: vec![],
        plugin_chain: vec!["tenant-filter".to_string(), "auth-filter".to_string()],
    }
}

fn render(b: &RevisionBundle) -> String {
    assert!(is_renderable(b));
    NginxManager::new("/opt/nginx".to_string()).build_preflight_conf(b, "/gw/runtime/dataplane/logs")
}

#[test]
fn preflight_conf_asks_the_plugin_check() {
    let conf = render(&bundle(vec![router("orders-route", vec![("^/api/orders", vec!["GET"])], "orders-svc")], vec![]));
    assert!(conf.starts_with("worker_processes  1;\npid logs/nginx.pid;\nerror_log /gw/runtime/dataplane/logs/bootstrap-error.log info;\n"));
    assert!(conf.contains("location = /__plugins_preflight {\n            internal;\n            proxy_pass http://127.0.0.1:19080/plugin-check;"));
    assert!(conf.contains("proxy_set_header X-Gateway-Revision rev-9;"));
    assert!(conf.contains("proxy_set_header X-Gateway-Plugin-Chain \"tenant-filter,auth-filter\";"));
    assert!(conf.contains("access_log /gw/runtime/dataplane/logs/access.log gateway_json;"));
    assert!(conf.contains("upstream svc_orders-svc {\n    server 10.0.0.10:8080 weight=100;\n}"));
    assert!(!conf.contains("keepalive 32"));
    assert!(conf.contains("server_name _;"));
    assert!(conf.contains("location ~ ^/api/orders {\n            set $gateway_route_seed \"orders-route-0\";"));
    assert!(conf.contains("limit_except GET { deny all; }\n            auth_request /__plugins_preflight;"));
    assert!(conf.contains("proxy_pass http://svc_orders-svc;\n        }"));
    assert!(conf.ends_with("\n    }\n}\n"));
}

#[test]
fn preflight_methods_are_per_router() {
    let conf = render(&bundle(
        vec![
            router("a-route", vec![("^/a", vec![]), ("^/b", vec!["PUT"])], "orders-svc"),
            router("c-route", vec![("^/c", vec![])], "orders-svc"),
        ],
        vec!["api.example.com", "www.example.com"],
    ));
    assert_eq!(conf.matches("limit_except PUT { deny all; }").count(), 2);
    assert_eq!(conf.matches("limit_except GET POST { deny all; }").count(), 1);
    let a = conf.find("a-route-0").unwrap();
    let b = conf.find("a-route-1").unwrap();
    let c = conf.find("c-route-0").unwrap();
    assert!(a < b && b < c);
    assert!(conf.contains("server_name api.example.com www.example.com;"));
}
