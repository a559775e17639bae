//! The nginx configuration of the preflight mode: instead of running the
//! filters inside nginx, every route asks the admin daemon's plugin check
//! (`auth_request /__plugins_preflight`) and forwards the identifiers and
//! decision it answers with to the upstream.

use vstd::prelude::*;
use crate::conf_text::{
    contains_text, join_with, lemma_contains_extend, lemma_contains_self, lemma_views_push,
    push_joined, views,
};
use crate::models::{RevisionBundle, RouterDocument, RouterRule, ServiceDocument, UpstreamTarget};
use crate::nginx::{
    lemma_target_lines_list_every_target, push_dec, renderable, route_id, server_line, server_names,
    string_views, strings_chars, target_lines,
    NginxManager, STATUS_LOCATIONS,
};
use crate::numtext::dec_chars;
use crate::text::{path_join, join_path, push_all, push_str, string_of};

verus! {

/// The upstream of a service, without keep-alive settings.
pub open spec fn preflight_upstream(svc: ServiceDocument) -> Seq<char> {
    "upstream svc_"@ + svc.metadata.name@ + " {\n"@ + target_lines(
        svc.spec.load_balancing.targets@,
    ) + "}"@
}

pub open spec fn preflight_upstreams(services: Seq<ServiceDocument>) -> Seq<Seq<char>> {
    Seq::new(services.len(), |i: int| preflight_upstream(services[i]))
}

/// The methods of all the rules of a router, in order.
pub open spec fn all_methods(rules: Seq<RouterRule>) -> Seq<Seq<char>>
    decreases rules.len(),
{
    if rules.len() == 0 {
        Seq::empty()
    } else {
        all_methods(rules.drop_last()) + string_views(rules.last().methods@)
    }
}

/// The methods every location of a router admits: those of all its
/// rules, space separated; `GET POST` when none names any.
pub open spec fn router_methods_text(rules: Seq<RouterRule>) -> Seq<char> {
    if all_methods(rules).len() == 0 {
        "GET POST"@
    } else {
        join_with(all_methods(rules), " "@)
    }
}

/// What a route location takes from the preflight answer and forwards.
pub const PREFLIGHT_FORWARDING: &'static str = " { deny all; }\n            auth_request /__plugins_preflight;\n            auth_request_set $gateway_request_id $upstream_http_x_request_id;\n            auth_request_set $gateway_trace_id $upstream_http_x_trace_id;\n            auth_request_set $gateway_tenant_id $upstream_http_x_tenant_id;\n            auth_request_set $gateway_route_id $upstream_http_x_route_id;\n            auth_request_set $gateway_service_id $upstream_http_x_service_id;\n            auth_request_set $gateway_revision $upstream_http_x_gateway_revision;\n            auth_request_set $gateway_plugin_chain $upstream_http_x_gateway_plugin_chain;\n            auth_request_set $gateway_decision $upstream_http_x_gateway_decision;\n            auth_request_set $gateway_decision_reason $upstream_http_x_gateway_decision_reason;\n            auth_request_set $gateway_policy_profile $upstream_http_x_gateway_policy_profile;\n            auth_request_set $gateway_plugin_version $upstream_http_x_gateway_plugin_version;\n            proxy_set_header X-Request-Id $gateway_request_id;\n            proxy_set_header X-Trace-Id $gateway_trace_id;\n            proxy_set_header X-Tenant-Id $gateway_tenant_id;\n            proxy_set_header X-Route-Id $gateway_route_id;\n            proxy_set_header X-Service-Id $gateway_service_id;\n            proxy_set_header X-Gateway-Revision $gateway_revision;\n            proxy_set_header X-Gateway-Plugin-Chain $gateway_plugin_chain;\n            proxy_set_header X-Gateway-Decision $gateway_decision;\n            proxy_set_header X-Gateway-Decision-Reason $gateway_decision_reason;\n            proxy_set_header X-Gateway-Policy-Profile $gateway_policy_profile;\n            proxy_set_header X-Gateway-Plugin-Version $gateway_plugin_version;\n            proxy_pass http://svc_";

/// The location of one router rule in the preflight mode.
pub open spec fn preflight_location(
    path: Seq<char>,
    route: Seq<char>,
    service: Seq<char>,
    methods: Seq<char>,
) -> Seq<char> {
    "location ~ "@ + path + " {\n            set $gateway_route_seed \""@ + route
        + "\";\n            set $gateway_service_seed \""@ + service
        + "\";\n            limit_except "@ + methods + PREFLIGHT_FORWARDING@ + service
        + ";\n        }"@
}

/// The locations of a router, one per rule.
pub open spec fn preflight_router_locations(r: RouterDocument) -> Seq<Seq<char>> {
    Seq::new(
        r.spec.rules@.len(),
        |i: int|
            preflight_location(
                r.spec.rules@[i].path@,
                route_id(r.metadata.name@, i as nat),
                r.spec.config.destinations@[0].destination_ref.name@,
                router_methods_text(r.spec.rules@),
            ),
    )
}

/// The locations of the routers, in order.
pub open spec fn preflight_locations(routers: Seq<RouterDocument>) -> Seq<Seq<char>>
    decreases routers.len(),
{
    if routers.len() == 0 {
        Seq::empty()
    } else {
        preflight_locations(routers.drop_last()) + preflight_router_locations(routers.last())
    }
}

/// The `log_format` of the access log, with the gateway's identifiers and
/// decision.
pub const PREFLIGHT_LOG_FORMAT: &'static str = "    log_format gateway_json escape=json\n      '{\"timestamp\":\"$time_iso8601\",\"remote_addr\":\"$remote_addr\",\"method\":\"$request_method\",\"path\":\"$request_uri\",\"status\":$status,\"request_time\":\"$request_time\",\"upstream_time\":\"$upstream_response_time\",\"request_id\":\"$gateway_request_id\",\"trace_id\":\"$gateway_trace_id\",\"tenant_id\":\"$gateway_tenant_id\",\"route_id\":\"$gateway_route_id\",\"service_id\":\"$gateway_service_id\",\"revision\":\"$gateway_revision\",\"plugin_chain\":\"$gateway_plugin_chain\",\"decision\":\"$gateway_decision\",\"decision_reason\":\"$gateway_decision_reason\"}';\n    access_log ";

/// The preflight location's forwarded request headers after the plugin
/// chain.
pub const PREFLIGHT_REQUEST_HEADERS: &'static str = "\";\n            proxy_set_header X-Original-Method $request_method;\n            proxy_set_header X-Original-Uri $request_uri;\n            proxy_set_header X-Original-Host $host;\n            proxy_set_header X-Request-Id $http_x_request_id;\n            proxy_set_header X-Trace-Id $http_x_trace_id;\n            proxy_set_header X-Tenant-Id $http_x_tenant_id;\n            proxy_set_header X-Api-Key $http_x_api_key;\n            proxy_set_header X-Route-Id $gateway_route_seed;\n            proxy_set_header X-Service-Id $gateway_service_seed;\n        }\n\n        location = ";

/// The whole preflight configuration of a bundle, logging under `log_dir`.
pub open spec fn preflight_conf(b: RevisionBundle, log_dir: Seq<char>) -> Seq<char> {
    "worker_processes  1;\npid logs/nginx.pid;\nerror_log "@ + path_join(
        log_dir,
        "bootstrap-error.log"@,
    )
        + " info;\n\nevents {\n    worker_connections  1024;\n}\n\nhttp {\n    include       /etc/nginx/mime.types;\n    default_type  application/octet-stream;\n    client_body_temp_path client_body_temp;\n    proxy_temp_path proxy_temp;\n\n"@
        + PREFLIGHT_LOG_FORMAT@ + path_join(log_dir, "access.log"@)
        + " gateway_json;\n    error_log "@ + path_join(log_dir, "error.log"@)
        + " info;\n\n    "@ + join_with(preflight_upstreams(b.services@), "\n\n    "@)
        + "\n\n    server {\n        listen "@ + dec_chars(b.listener.spec.port as nat)
        + ";\n        server_name "@ + server_names(b.listener.spec.allowed_hostnames@)
        + ";\n\n        location = /__plugins_preflight {\n            internal;\n            proxy_pass http://127.0.0.1:19080/plugin-check;\n            proxy_set_header X-Gateway-Revision "@
        + b.manifest.revision@ + ";\n            proxy_set_header X-Gateway-Plugin-Chain \""@
        + join_with(string_views(b.plugin_chain@), ","@) + PREFLIGHT_REQUEST_HEADERS@
        + b.gateway.spec.metrics.path@ + STATUS_LOCATIONS@ + join_with(
        preflight_locations(b.routers@),
        "\n\n        "@,
    ) + "\n    }\n}\n"@
}

/// Every backend of a service is listed in its preflight upstream.
pub proof fn preflight_upstream_lists_every_target(svc: ServiceDocument, k: int)
    requires
        0 <= k < svc.spec.load_balancing.targets@.len(),
    ensures
        contains_text(
            preflight_upstream(svc),
            server_line(svc.spec.load_balancing.targets@[k]),
        ),
{
    let ts = svc.spec.load_balancing.targets@;
    let head = "upstream svc_"@ + svc.metadata.name@ + " {\n"@;
    lemma_target_lines_list_every_target(ts, k);
    lemma_contains_extend(target_lines(ts), head, server_line(ts[k]));
    lemma_contains_extend(head + target_lines(ts), "}"@, server_line(ts[k]));
}

/// A service without backends has an empty upstream, and one more backend
/// adds exactly its line before the closing brace.
pub proof fn preflight_upstream_grows_by_one_line(
    a: ServiceDocument,
    b: ServiceDocument,
    x: UpstreamTarget,
)
    requires
        a.metadata.name@ == b.metadata.name@,
        b.spec.load_balancing.targets@ == a.spec.load_balancing.targets@.push(x),
    ensures
        a.spec.load_balancing.targets@.len() == 0 ==> preflight_upstream(a) == "upstream svc_"@
            + a.metadata.name@ + " {\n}"@,
        preflight_upstream(b) == preflight_upstream(a).drop_last() + server_line(x) + "}"@,
{
    let ts = a.spec.load_balancing.targets@;
    assert(b.spec.load_balancing.targets@.drop_last() =~= ts);
    assert(target_lines(b.spec.load_balancing.targets@) =~= target_lines(ts) + server_line(x));
    reveal_strlit("}");
    reveal_strlit(" {\n");
    reveal_strlit(" {\n}");
    assert(preflight_upstream(a).drop_last() =~= "upstream svc_"@ + a.metadata.name@ + " {\n"@
        + target_lines(ts));
    assert(preflight_upstream(b) =~= preflight_upstream(a).drop_last() + server_line(x) + "}"@);
    if ts.len() == 0 {
        assert(preflight_upstream(a) =~= "upstream svc_"@ + a.metadata.name@ + " {\n}"@);
    }
}

fn preflight_upstream_of(svc: &ServiceDocument) -> (r: Vec<char>)
    ensures
        r@ == preflight_upstream(*svc),
{
    let mut r: Vec<char> = Vec::new();
    push_str(&mut r, "upstream svc_");
    push_str(&mut r, svc.metadata.name.as_str());
    push_str(&mut r, " {\n");
    let ghost head = r@;
    let targets = &svc.spec.load_balancing.targets;
    let mut i: usize = 0;
    assert(targets@.take(0) =~= Seq::<UpstreamTarget>::empty());
    while i < targets.len()
        invariant
            i <= targets.len(),
            r@ == head + target_lines(targets@.take(i as int)),
        decreases targets.len() - i,
    {
        let t = &targets[i];
        push_str(&mut r, "    server ");
        push_str(&mut r, t.host.as_str());
        push_str(&mut r, ":");
        push_dec(&mut r, t.port as u64);
        push_str(&mut r, " weight=");
        push_dec(&mut r, t.weight as u64);
        push_str(&mut r, ";\n");
        assert(targets@.take(i + 1).drop_last() =~= targets@.take(i as int));
        assert(r@ =~= head + target_lines(targets@.take(i + 1)));
        i += 1;
    }
    assert(targets@.take(i as int) =~= targets@);
    push_str(&mut r, "}");
    assert(r@ =~= preflight_upstream(*svc));
    r
}

fn router_methods_of(rules: &Vec<RouterRule>) -> (r: Vec<char>)
    ensures
        r@ == router_methods_text(rules@),
{
    let mut pieces: Vec<Vec<char>> = Vec::new();
    let mut i: usize = 0;
    assert(rules@.take(0) =~= Seq::<RouterRule>::empty());
    while i < rules.len()
        invariant
            i <= rules.len(),
            views(pieces@) == all_methods(rules@.take(i as int)),
        decreases rules.len() - i,
    {
        let ms = &rules[i].methods;
        let mut j: usize = 0;
        let ghost before = views(pieces@);
        while j < ms.len()
            invariant
                j <= ms.len(),
                views(pieces@) == before + string_views(ms@).take(j as int),
            decreases ms.len() - j,
        {
            let piece = crate::text::chars_of(ms[j].as_str());
            let ghost prev = pieces@;
            pieces.push(piece);
            proof {
                lemma_views_push(prev, piece);
            }
            assert(views(pieces@) =~= before + string_views(ms@).take(j + 1));
            j += 1;
        }
        assert(string_views(ms@).take(j as int) =~= string_views(ms@));
        assert(rules@.take(i + 1).drop_last() =~= rules@.take(i as int));
        assert(rules@.take(i + 1).last() == rules@[i as int]);
        i += 1;
    }
    assert(rules@.take(i as int) =~= rules@);
    let mut r: Vec<char> = Vec::new();
    if pieces.len() == 0 {
        push_str(&mut r, "GET POST");
    } else {
        push_joined(&mut r, &pieces, " ");
    }
    r
}

fn preflight_router_locations_of(r: &RouterDocument, out: &mut Vec<Vec<char>>)
    requires
        r.spec.config.destinations@.len() > 0,
    ensures
        views(final(out)@) == views(old(out)@) + preflight_router_locations(*r),
{
    let ghost start = views(out@);
    let service = r.spec.config.destinations[0].destination_ref.name.as_str();
    let rules = &r.spec.rules;
    let methods = router_methods_of(rules);
    let mut i: usize = 0;
    while i < rules.len()
        invariant
            i <= rules.len(),
            rules == r.spec.rules,
            methods@ == router_methods_text(r.spec.rules@),
            service@ == r.spec.config.destinations@[0].destination_ref.name@,
            views(out@) == start + preflight_router_locations(*r).take(i as int),
        decreases rules.len() - i,
    {
        let rule = &rules[i];
        let mut loc: Vec<char> = Vec::new();
        push_str(&mut loc, "location ~ ");
        push_str(&mut loc, rule.path.as_str());
        push_str(&mut loc, " {\n            set $gateway_route_seed \"");
        push_str(&mut loc, r.metadata.name.as_str());
        push_str(&mut loc, "-");
        push_dec(&mut loc, i as u64);
        push_str(&mut loc, "\";\n            set $gateway_service_seed \"");
        push_str(&mut loc, service);
        push_str(&mut loc, "\";\n            limit_except ");
        push_all(&mut loc, &methods, 0, methods.len());
        assert(methods@.subrange(0, methods@.len() as int) =~= methods@);
        push_str(&mut loc, PREFLIGHT_FORWARDING);
        push_str(&mut loc, service);
        push_str(&mut loc, ";\n        }");
        assert(loc@ =~= preflight_router_locations(*r)[i as int]);
        let ghost prev = out@;
        let pushed = loc;
        out.push(pushed);
        proof {
            lemma_views_push(prev, pushed);
        }
        assert(views(out@) =~= start + preflight_router_locations(*r).take(i + 1));
        i += 1;
    }
    assert(preflight_router_locations(*r).take(i as int) =~= preflight_router_locations(*r));
}

impl NginxManager {
    /// The preflight configuration of `bundle`, with its logs under
    /// `log_dir`.
    pub fn build_preflight_conf(&self, bundle: &RevisionBundle, log_dir: &str) -> (conf: String)
        requires
            renderable(*bundle),
        ensures
            conf@ == preflight_conf(*bundle, log_dir@),
    {
        let mut out: Vec<char> = Vec::new();
        push_str(&mut out, "worker_processes  1;\npid logs/nginx.pid;\nerror_log ");
        push_str(&mut out, join_path(log_dir, "bootstrap-error.log").as_str());
        push_str(
            &mut out,
            " info;\n\nevents {\n    worker_connections  1024;\n}\n\nhttp {\n    include       /etc/nginx/mime.types;\n    default_type  application/octet-stream;\n    client_body_temp_path client_body_temp;\n    proxy_temp_path proxy_temp;\n\n",
        );
        push_str(&mut out, PREFLIGHT_LOG_FORMAT);
        push_str(&mut out, join_path(log_dir, "access.log").as_str());
        push_str(&mut out, " gateway_json;\n    error_log ");
        push_str(&mut out, join_path(log_dir, "error.log").as_str());
        push_str(&mut out, " info;\n\n    ");
        let services = &bundle.services;
        let mut blocks: Vec<Vec<char>> = Vec::new();
        let mut i: usize = 0;
        while i < services.len()
            invariant
                i <= services.len(),
                services == bundle.services,
                views(blocks@) == preflight_upstreams(services@).take(i as int),
            decreases services.len() - i,
        {
            let ghost prev = blocks@;
            let pushed = preflight_upstream_of(&services[i]);
            blocks.push(pushed);
            proof {
                lemma_views_push(prev, pushed);
            }
            assert(views(blocks@) =~= preflight_upstreams(services@).take(i + 1));
            i += 1;
        }
        assert(preflight_upstreams(services@).take(i as int) =~= preflight_upstreams(services@));
        push_joined(&mut out, &blocks, "\n\n    ");
        push_str(&mut out, "\n\n    server {\n        listen ");
        push_dec(&mut out, bundle.listener.spec.port as u64);
        push_str(&mut out, ";\n        server_name ");
        let hosts = &bundle.listener.spec.allowed_hostnames;
        if hosts.len() == 0 {
            push_str(&mut out, "_");
        } else {
            let hs = strings_chars(hosts);
            push_joined(&mut out, &hs, " ");
        }
        push_str(
            &mut out,
            ";\n\n        location = /__plugins_preflight {\n            internal;\n            proxy_pass http://127.0.0.1:19080/plugin-check;\n            proxy_set_header X-Gateway-Revision ",
        );
        push_str(&mut out, bundle.manifest.revision.as_str());
        push_str(&mut out, ";\n            proxy_set_header X-Gateway-Plugin-Chain \"");
        let chain = strings_chars(&bundle.plugin_chain);
        push_joined(&mut out, &chain, ",");
        push_str(&mut out, PREFLIGHT_REQUEST_HEADERS);
        push_str(&mut out, bundle.gateway.spec.metrics.path.as_str());
        push_str(&mut out, STATUS_LOCATIONS);
        let routers = &bundle.routers;
        let mut locs: Vec<Vec<char>> = Vec::new();
        let mut k: usize = 0;
        assert(routers@.take(0) =~= Seq::<RouterDocument>::empty());
        while k < routers.len()
            invariant
                k <= routers.len(),
                routers == bundle.routers,
                renderable(*bundle),
                views(locs@) == preflight_locations(routers@.take(k as int)),
            decreases routers.len() - k,
        {
            assert(bundle.routers@[k as int].spec.config.destinations@.len() > 0);
            preflight_router_locations_of(&routers[k], &mut locs);
            assert(routers@.take(k + 1).drop_last() =~= routers@.take(k as int));
            k += 1;
        }
        assert(routers@.take(k as int) =~= routers@);
        push_joined(&mut out, &locs, "\n\n        ");
        push_str(&mut out, "\n    }\n}\n");
        assert(out@ =~= preflight_conf(*bundle, log_dir@));
        assert(out@.subrange(0, out@.len() as int) =~= out@);
        string_of(&out, 0, out.len())
    }
}

} // verus!
