//! Rendering of the nginx configuration of a revision bundle: the Wasm
//! module declarations of the plugin chain, one upstream per service, one
//! location per router rule (exact matches first, then prefixes, then
//! regular expressions, higher priority first within a kind), the metrics
//! and status locations, and the fixed performance settings.

use vstd::prelude::*;
use crate::conf_text::{
    contains_text, lemma_contains_extend, lemma_contains_self, lemma_contains_trans,
    lemma_join_contains, dashes_to_underscores, escape_single, join_with, lemma_views_push, views, push_escaped, push_joined, push_underscored,
};
use crate::models::{
    PathMatchType, RevisionBundle, RouterDocument, ServiceDocument, UpstreamTarget,
};
use crate::numtext::{dec_chars, dec_of};
use crate::order::{stable_order, stable_order_of};
use crate::text::{chars_of, path_join, join_path, push_all, push_str, string_of, trim, trim_str};

verus! {

/// The views of a list of strings.
pub open spec fn string_views(v: Seq<String>) -> Seq<Seq<char>> {
    Seq::new(v.len(), |i: int| v[i]@)
}

/// `    module <name_with_underscores> <plugins_dir>/<name>.wasm;`
pub open spec fn module_line(name: Seq<char>, plugins_dir: Seq<char>) -> Seq<char> {
    "    module "@ + dashes_to_underscores(name) + " "@ + plugins_dir + "/"@ + name + ".wasm;"@
}

pub open spec fn module_lines(chain: Seq<String>, plugins_dir: Seq<char>) -> Seq<Seq<char>> {
    Seq::new(chain.len(), |i: int| module_line(chain[i]@, plugins_dir))
}

/// The `wasm { .. }` block declaring the chain's modules; nothing for an
/// empty chain.
pub open spec fn wasm_block(chain: Seq<String>, plugins_dir: Seq<char>) -> Seq<char> {
    if chain.len() == 0 {
        Seq::empty()
    } else {
        "wasm {\n"@ + join_with(module_lines(chain, plugins_dir), "\n"@) + "\n}\n\n"@
    }
}

/// The configuration handed to a filter: the escaped, single-quoted
/// secrets, header or rate-limit configuration for the auth, header and
/// rate-limit filters; none for the others.
pub open spec fn filter_config(
    name: Seq<char>,
    auth: Seq<char>,
    header: Seq<char>,
    rate_limit: Seq<char>,
) -> Option<Seq<char>> {
    if name == "auth-filter"@ {
        Some("'"@ + escape_single(auth) + "'"@)
    } else if name == "header-filter"@ {
        Some("'"@ + escape_single(header) + "'"@)
    } else if name == "rate-limit-filter"@ {
        Some("'"@ + escape_single(rate_limit) + "'"@)
    } else {
        None
    }
}

/// `            proxy_wasm <module>[ <config>];`
pub open spec fn directive_line(
    name: Seq<char>,
    auth: Seq<char>,
    header: Seq<char>,
    rate_limit: Seq<char>,
) -> Seq<char> {
    "            proxy_wasm "@ + dashes_to_underscores(name) + match filter_config(
        name,
        auth,
        header,
        rate_limit,
    ) {
        Some(c) => " "@ + c,
        None => Seq::empty(),
    } + ";"@
}

pub open spec fn directive_lines(
    chain: Seq<String>,
    auth: Seq<char>,
    header: Seq<char>,
    rate_limit: Seq<char>,
) -> Seq<Seq<char>> {
    Seq::new(chain.len(), |i: int| directive_line(chain[i]@, auth, header, rate_limit))
}

/// The `proxy_wasm` lines of every location, one per filter of the chain.
pub open spec fn directives(
    chain: Seq<String>,
    auth: Seq<char>,
    header: Seq<char>,
    rate_limit: Seq<char>,
) -> Seq<char> {
    join_with(directive_lines(chain, auth, header, rate_limit), "\n"@)
}

/// The header filter's configuration: `{"revision":"..","plugin_chain":".."}`
/// with the chain joined by commas.
pub open spec fn header_filter_config(revision: Seq<char>, chain: Seq<String>) -> Seq<char> {
    "{\"revision\":\""@ + revision + "\",\"plugin_chain\":\""@ + join_with(
        string_views(chain),
        ","@,
    ) + "\"}"@
}

/// `    server host:port weight=w;` per target, each line ending in a newline.
pub open spec fn target_lines(ts: Seq<UpstreamTarget>) -> Seq<char>
    decreases ts.len(),
{
    if ts.len() == 0 {
        Seq::empty()
    } else {
        target_lines(ts.drop_last()) + "    server "@ + ts.last().host@ + ":"@ + dec_chars(
            ts.last().port as nat,
        ) + " weight="@ + dec_chars(ts.last().weight as nat) + ";\n"@
    }
}

/// The upstream of a service, with its keep-alive settings.
pub open spec fn upstream_block(svc: ServiceDocument, keepalive: u32) -> Seq<char> {
    "upstream svc_"@ + svc.metadata.name@ + " {\n"@ + target_lines(
        svc.spec.load_balancing.targets@,
    ) + "    keepalive "@ + dec_chars(keepalive as nat)
        + ";\n    keepalive_requests 10000;\n    keepalive_timeout  60s;\n    keepalive_time     1h;\n}"@
}

/// `    server host:port weight=w;` and a newline: how one backend of a
/// service is listed in its upstream.
pub open spec fn server_line(t: UpstreamTarget) -> Seq<char> {
    "    server "@ + t.host@ + ":"@ + dec_chars(t.port as nat) + " weight="@ + dec_chars(
        t.weight as nat,
    ) + ";\n"@
}

/// Every target of a list appears among the target lines.
pub proof fn lemma_target_lines_list_every_target(ts: Seq<UpstreamTarget>, k: int)
    requires
        0 <= k < ts.len(),
    ensures
        contains_text(target_lines(ts), server_line(ts[k])),
    decreases ts.len(),
{
    let rest = target_lines(ts.drop_last());
    assert(target_lines(ts) =~= rest + server_line(ts.last()));
    if k == ts.len() - 1 {
        lemma_contains_self(server_line(ts[k]));
        lemma_contains_extend(server_line(ts[k]), rest, server_line(ts[k]));
    } else {
        lemma_target_lines_list_every_target(ts.drop_last(), k);
        assert(ts.drop_last()[k] == ts[k]);
        lemma_contains_extend(rest, server_line(ts.last()), server_line(ts[k]));
    }
}

/// Every backend of a service is listed in its upstream.
pub proof fn upstream_block_lists_every_target(svc: ServiceDocument, keepalive: u32, k: int)
    requires
        0 <= k < svc.spec.load_balancing.targets@.len(),
    ensures
        contains_text(
            upstream_block(svc, keepalive),
            server_line(svc.spec.load_balancing.targets@[k]),
        ),
{
    let ts = svc.spec.load_balancing.targets@;
    let head = "upstream svc_"@ + svc.metadata.name@ + " {\n"@;
    let tail = "    keepalive "@ + dec_chars(keepalive as nat)
        + ";\n    keepalive_requests 10000;\n    keepalive_timeout  60s;\n    keepalive_time     1h;\n}"@;
    lemma_target_lines_list_every_target(ts, k);
    lemma_contains_extend(target_lines(ts), head, server_line(ts[k]));
    lemma_contains_extend(head + target_lines(ts), tail, server_line(ts[k]));
    assert(upstream_block(svc, keepalive) =~= (head + target_lines(ts)) + tail);
}

pub open spec fn upstream_blocks(services: Seq<ServiceDocument>, keepalive: u32) -> Seq<Seq<char>> {
    Seq::new(services.len(), |i: int| upstream_block(services[i], keepalive))
}

/// The location directive of a match kind.
pub open spec fn location_keyword(m: PathMatchType) -> Seq<char> {
    match m {
        PathMatchType::Exact => "location ="@,
        PathMatchType::Prefix => "location ^~"@,
        PathMatchType::Regex => "location ~"@,
    }
}

/// The methods a rule admits, space separated (nothing when it names
/// none).
pub open spec fn methods_text(methods: Seq<String>) -> Seq<char> {
    join_with(string_views(methods), " "@)
}

/// The location of one router rule.
pub open spec fn location_block(
    keyword: Seq<char>,
    path: Seq<char>,
    route_id: Seq<char>,
    service: Seq<char>,
    methods: Seq<char>,
    directives: Seq<char>,
) -> Seq<char> {
    keyword + " "@ + path + " {\n            set $gateway_route_seed \""@ + route_id
        + "\";\n            set $gateway_service_seed \""@ + service
        + "\";\n            limit_except "@ + methods + " { deny all; }"@ + (if directives.len()
        == 0 {
        Seq::empty()
    } else {
        "\n"@ + directives
    })
        + "\n            proxy_set_header X-Route-Id $gateway_route_seed;\n            proxy_set_header X-Service-Id $gateway_service_seed;\n            proxy_pass http://svc_"@
        + service + ";\n        }"@
}

/// `<router>-<rule index>`.
pub open spec fn route_id(router: Seq<char>, index: nat) -> Seq<char> {
    router + "-"@ + dec_chars(index)
}

/// The locations of a router, one per rule, proxying to its first
/// destination.
pub open spec fn router_locations(r: RouterDocument, directives: Seq<char>) -> Seq<Seq<char>> {
    Seq::new(
        r.spec.rules@.len(),
        |i: int|
            location_block(
                location_keyword(r.spec.match_type),
                r.spec.rules@[i].path@,
                route_id(r.metadata.name@, i as nat),
                r.spec.config.destinations@[0].destination_ref.name@,
                methods_text(r.spec.rules@[i].methods@),
                directives,
            ),
    )
}

/// The locations of the routers taken in `order`.
pub open spec fn ordered_locations(
    routers: Seq<RouterDocument>,
    order: Seq<usize>,
    directives: Seq<char>,
) -> Seq<Seq<char>>
    decreases order.len(),
{
    if order.len() == 0 {
        Seq::empty()
    } else {
        ordered_locations(routers, order.drop_last(), directives) + router_locations(
            routers[order.last() as int],
            directives,
        )
    }
}

/// Rank of a match kind: exact, then prefix, then regular expression.
pub open spec fn match_rank(m: PathMatchType) -> u32 {
    match m {
        PathMatchType::Exact => 0,
        PathMatchType::Prefix => 1,
        PathMatchType::Regex => 2,
    }
}

/// Sort key of a router: its match rank, then its priority, highest first.
pub open spec fn router_key(r: RouterDocument) -> u32 {
    (match_rank(r.spec.match_type) * 65536 + (65535 - r.spec.priority)) as u32
}

pub open spec fn router_keys(routers: Seq<RouterDocument>) -> Seq<u32> {
    Seq::new(routers.len(), |i: int| router_key(routers[i]))
}

/// The order in which routers are rendered.
pub open spec fn router_order(routers: Seq<RouterDocument>) -> Seq<usize> {
    stable_order(router_keys(routers), routers.len())
}

/// The names of the listener's allowed hosts, or `_` when there are none.
pub open spec fn server_names(hosts: Seq<String>) -> Seq<char> {
    if hosts.len() == 0 {
        "_"@
    } else {
        join_with(string_views(hosts), " "@)
    }
}

/// The whole configuration of a bundle.
pub open spec fn nginx_conf(
    b: RevisionBundle,
    mime_types_path: Seq<char>,
    auth: Seq<char>,
    rate_limit: Seq<char>,
) -> Seq<char> {
    let chain = b.plugin_chain@;
    let header = header_filter_config(b.manifest.revision@, chain);
    let dirs = directives(chain, auth, header, rate_limit);
    let server = b.gateway.spec.server;
    "worker_processes  "@ + server.worker_processes@
        + ";\nworker_rlimit_nofile 65535;\npid logs/nginx.pid;\npcre_jit on;\nerror_log /dev/null crit;\n\n"@
        + wasm_block(chain, path_join(b.root@, "plugins"@)) + "events {\n    worker_connections  "@
        + dec_chars(server.worker_connections as nat)
        + ";\n    use epoll;\n    multi_accept on;\n    accept_mutex off;\n}\n\nhttp {\n    include       "@
        + mime_types_path + HTTP_SETTINGS@ + join_with(
        upstream_blocks(b.services@, server.keepalive_connections),
        "\n\n    "@,
    ) + "\n\n    server {\n        listen "@ + dec_chars(b.listener.spec.port as nat)
        + " backlog=4096;\n        server_name "@ + server_names(b.listener.spec.allowed_hostnames@)
        + ";\n\n        location = "@ + b.gateway.spec.metrics.path@ + STATUS_LOCATIONS@ + join_with(
        ordered_locations(b.routers@, router_order(b.routers@), dirs),
        "\n\n        "@,
    ) + "\n    }\n}\n"@
}

/// The fixed `http` settings that follow the `include` of the MIME types.
pub const HTTP_SETTINGS: &'static str = ";\n    default_type  application/octet-stream;\n    client_body_temp_path    client_body_temp;\n    proxy_temp_path          proxy_temp;\n\n    sendfile                 on;\n    tcp_nopush               on;\n    tcp_nodelay              on;\n    keepalive_timeout        65;\n    keepalive_requests       10000;\n    reset_timedout_connection on;\n    client_max_body_size     1m;\n    client_body_buffer_size  128k;\n    gzip                     off;\n    gzip_proxied             off;\n\n    proxy_buffer_size        128k;\n    proxy_buffers            4 128k;\n    proxy_busy_buffers_size  256k;\n    proxy_http_version       1.1;\n    proxy_set_header         Connection \"\";\n    proxy_connect_timeout    5s;\n    proxy_read_timeout       60s;\n\n    access_log off;\n    error_log /dev/null crit;\n\n    ";

/// The metrics location's body and the status location, up to the router
/// locations.
pub const STATUS_LOCATIONS: &'static str = " {\n            proxy_pass http://127.0.0.1:19080/metrics;\n        }\n\n        location = /__gateway_status {\n            proxy_pass http://127.0.0.1:19080/status;\n        }\n\n        ";

/// Every router has a destination whose service is in the bundle.
pub open spec fn renderable(b: RevisionBundle) -> bool {
    forall|i: int|
        0 <= i < b.routers@.len() ==> {
            let r = #[trigger] b.routers@[i];
            &&& r.spec.config.destinations@.len() > 0
            &&& exists|j: int|
                0 <= j < b.services@.len() && b.services@[j].metadata.name@
                    == r.spec.config.destinations@[0].destination_ref.name@
        }
}

/// Whether a bundle can be rendered: every router has a destination whose
/// service is in the bundle.
pub fn is_renderable(bundle: &RevisionBundle) -> (b: bool)
    ensures
        b == renderable(*bundle),
{
    let routers = &bundle.routers;
    let services = &bundle.services;
    let mut i: usize = 0;
    while i < routers.len()
        invariant
            i <= routers.len(),
            routers == bundle.routers,
            services == bundle.services,
            forall|k: int|
                0 <= k < i ==> {
                    let r = #[trigger] bundle.routers@[k];
                    &&& r.spec.config.destinations@.len() > 0
                    &&& exists|j: int|
                        0 <= j < bundle.services@.len() && bundle.services@[j].metadata.name@
                            == r.spec.config.destinations@[0].destination_ref.name@
                },
        decreases routers.len() - i,
    {
        let r = &routers[i];
        if r.spec.config.destinations.len() == 0 {
            return false;
        }
        let target = &r.spec.config.destinations[0].destination_ref.name;
        let mut j: usize = 0;
        let mut found = false;
        while j < services.len()
            invariant
                j <= services.len(),
                services == bundle.services,
                found ==> exists|m: int|
                    0 <= m < services@.len() && services@[m].metadata.name@ == target@,
                !found ==> forall|m: int|
                    0 <= m < j ==> services@[m].metadata.name@ != target@,
            decreases services.len() - j,
        {
            if services[j].metadata.name == *target {
                found = true;
            }
            j += 1;
        }
        if !found {
            return false;
        }
        i += 1;
    }
    true
}

/// Drives nginx for the daemon: the binary it runs, and the configuration
/// it renders.
pub struct NginxManager {
    pub binary: String,
}

/// The characters of each string.
pub fn strings_chars(v: &Vec<String>) -> (r: Vec<Vec<char>>)
    ensures
        views(r@) == string_views(v@),
{
    let mut r: Vec<Vec<char>> = Vec::new();
    let mut i: usize = 0;
    while i < v.len()
        invariant
            i <= v.len(),
            views(r@) == string_views(v@).take(i as int),
        decreases v.len() - i,
    {
        let ghost prev = r@;
        let pushed = chars_of(v[i].as_str());
        r.push(pushed);
        proof {
            lemma_views_push(prev, pushed);
        }
        assert(views(r@) =~= string_views(v@).take(i + 1));
        i += 1;
    }
    assert(string_views(v@).take(i as int) =~= string_views(v@));
    r
}

fn wasm_block_of(chain: &Vec<String>, plugins_dir: &str) -> (r: Vec<char>)
    ensures
        r@ == wasm_block(chain@, plugins_dir@),
{
    let mut r: Vec<char> = Vec::new();
    if chain.len() == 0 {
        return r;
    }
    let mut lines: Vec<Vec<char>> = Vec::new();
    let mut i: usize = 0;
    while i < chain.len()
        invariant
            i <= chain.len(),
            views(lines@) == module_lines(chain@, plugins_dir@).take(i as int),
        decreases chain.len() - i,
    {
        let mut line: Vec<char> = Vec::new();
        push_str(&mut line, "    module ");
        push_underscored(&mut line, chain[i].as_str());
        push_str(&mut line, " ");
        push_str(&mut line, plugins_dir);
        push_str(&mut line, "/");
        push_str(&mut line, chain[i].as_str());
        push_str(&mut line, ".wasm;");
        assert(line@ =~= module_line(chain@[i as int]@, plugins_dir@));
        let ghost prev = lines@;
        let pushed = line;
        lines.push(pushed);
        proof {
            lemma_views_push(prev, pushed);
        }
        assert(views(lines@) =~= module_lines(chain@, plugins_dir@).take(i + 1));
        i += 1;
    }
    assert(module_lines(chain@, plugins_dir@).take(i as int) =~= module_lines(chain@, plugins_dir@));
    push_str(&mut r, "wasm {\n");
    push_joined(&mut r, &lines, "\n");
    push_str(&mut r, "\n}\n\n");
    r
}

fn directives_of(chain: &Vec<String>, auth: &str, header: &str, rate_limit: &str) -> (r: Vec<char>)
    ensures
        r@ == directives(chain@, auth@, header@, rate_limit@),
{
    let mut lines: Vec<Vec<char>> = Vec::new();
    let auth_name = String::from_str("auth-filter");
    let header_name = String::from_str("header-filter");
    let rl_name = String::from_str("rate-limit-filter");
    let mut i: usize = 0;
    while i < chain.len()
        invariant
            i <= chain.len(),
            auth_name@ == "auth-filter"@,
            header_name@ == "header-filter"@,
            rl_name@ == "rate-limit-filter"@,
            views(lines@) == directive_lines(chain@, auth@, header@, rate_limit@).take(i as int),
        decreases chain.len() - i,
    {
        let name = &chain[i];
        let mut line: Vec<char> = Vec::new();
        push_str(&mut line, "            proxy_wasm ");
        push_underscored(&mut line, name.as_str());
        if *name == auth_name {
            push_str(&mut line, " ");
            push_str(&mut line, "'");
            push_escaped(&mut line, auth);
            push_str(&mut line, "'");
        } else if *name == header_name {
            push_str(&mut line, " ");
            push_str(&mut line, "'");
            push_escaped(&mut line, header);
            push_str(&mut line, "'");
        } else if *name == rl_name {
            push_str(&mut line, " ");
            push_str(&mut line, "'");
            push_escaped(&mut line, rate_limit);
            push_str(&mut line, "'");
        }
        push_str(&mut line, ";");
        assert(line@ =~= directive_line(name@, auth@, header@, rate_limit@));
        let ghost prev = lines@;
        let pushed = line;
        lines.push(pushed);
        proof {
            lemma_views_push(prev, pushed);
        }
        assert(views(lines@) =~= directive_lines(chain@, auth@, header@, rate_limit@).take(
            i + 1,
        ));
        i += 1;
    }
    assert(directive_lines(chain@, auth@, header@, rate_limit@).take(i as int)
        =~= directive_lines(chain@, auth@, header@, rate_limit@));
    let mut r: Vec<char> = Vec::new();
    push_joined(&mut r, &lines, "\n");
    r
}

/// The header filter's configuration for a revision and chain.
pub fn header_filter_config_of(revision: &str, chain: &Vec<String>) -> (r: String)
    ensures
        r@ == header_filter_config(revision@, chain@),
{
    let mut out: Vec<char> = Vec::new();
    push_str(&mut out, "{\"revision\":\"");
    push_str(&mut out, revision);
    push_str(&mut out, "\",\"plugin_chain\":\"");
    let names = strings_chars(chain);
    push_joined(&mut out, &names, ",");
    push_str(&mut out, "\"}");
    assert(out@ =~= header_filter_config(revision@, chain@));
    assert(out@.subrange(0, out@.len() as int) =~= out@);
    string_of(&out, 0, out.len())
}

/// Appends the decimal digits of `n`.
pub fn push_dec(out: &mut Vec<char>, n: u64)
    ensures
        final(out)@ == old(out)@ + dec_chars(n as nat),
{
    let d = dec_of(n);
    push_all(out, &d, 0, d.len());
    assert(d@.subrange(0, d@.len() as int) =~= d@);
}

fn upstream_block_of(svc: &ServiceDocument, keepalive: u32) -> (r: Vec<char>)
    ensures
        r@ == upstream_block(*svc, keepalive),
{
    let mut r: Vec<char> = Vec::new();
    push_str(&mut r, "upstream svc_");
    push_str(&mut r, svc.metadata.name.as_str());
    push_str(&mut r, " {\n");
    let ghost head = r@;
    let targets = &svc.spec.load_balancing.targets;
    let mut i: usize = 0;
    assert(targets@.take(0) =~= Seq::<UpstreamTarget>::empty());
    while i < targets.len()
        invariant
            i <= targets.len(),
            r@ == head + target_lines(targets@.take(i as int)),
        decreases targets.len() - i,
    {
        let t = &targets[i];
        push_str(&mut r, "    server ");
        push_str(&mut r, t.host.as_str());
        push_str(&mut r, ":");
        push_dec(&mut r, t.port as u64);
        push_str(&mut r, " weight=");
        push_dec(&mut r, t.weight as u64);
        push_str(&mut r, ";\n");
        assert(targets@.take(i + 1).drop_last() =~= targets@.take(i as int));
        assert(r@ =~= head + target_lines(targets@.take(i + 1)));
        i += 1;
    }
    assert(targets@.take(i as int) =~= targets@);
    push_str(&mut r, "    keepalive ");
    push_dec(&mut r, keepalive as u64);
    push_str(
        &mut r,
        ";\n    keepalive_requests 10000;\n    keepalive_timeout  60s;\n    keepalive_time     1h;\n}",
    );
    assert(r@ =~= upstream_block(*svc, keepalive));
    r
}

fn location_keyword_of(m: &PathMatchType) -> (r: &'static str)
    ensures
        r@ == location_keyword(*m),
{
    match m {
        PathMatchType::Exact => "location =",
        PathMatchType::Prefix => "location ^~",
        PathMatchType::Regex => "location ~",
    }
}

fn router_locations_of(r: &RouterDocument, dirs: &Vec<char>, out: &mut Vec<Vec<char>>)
    requires
        r.spec.config.destinations@.len() > 0,
    ensures
        views(final(out)@) == views(old(out)@) + router_locations(*r, dirs@),
{
    let ghost start = views(out@);
    let keyword = location_keyword_of(&r.spec.match_type);
    let service = r.spec.config.destinations[0].destination_ref.name.as_str();
    let rules = &r.spec.rules;
    let mut i: usize = 0;
    while i < rules.len()
        invariant
            i <= rules.len(),
            rules == r.spec.rules,
            keyword@ == location_keyword(r.spec.match_type),
            service@ == r.spec.config.destinations@[0].destination_ref.name@,
            views(out@) == start + router_locations(*r, dirs@).take(i as int),
        decreases rules.len() - i,
    {
        let rule = &rules[i];
        let mut loc: Vec<char> = Vec::new();
        push_str(&mut loc, keyword);
        push_str(&mut loc, " ");
        push_str(&mut loc, rule.path.as_str());
        push_str(&mut loc, " {\n            set $gateway_route_seed \"");
        push_str(&mut loc, r.metadata.name.as_str());
        push_str(&mut loc, "-");
        push_dec(&mut loc, i as u64);
        push_str(&mut loc, "\";\n            set $gateway_service_seed \"");
        push_str(&mut loc, service);
        push_str(&mut loc, "\";\n            limit_except ");
        let ms = strings_chars(&rule.methods);
        push_joined(&mut loc, &ms, " ");
        push_str(&mut loc, " { deny all; }");
        if dirs.len() > 0 {
            push_str(&mut loc, "\n");
            push_all(&mut loc, dirs, 0, dirs.len());
            assert(dirs@.subrange(0, dirs@.len() as int) =~= dirs@);
        }
        push_str(
            &mut loc,
            "\n            proxy_set_header X-Route-Id $gateway_route_seed;\n            proxy_set_header X-Service-Id $gateway_service_seed;\n            proxy_pass http://svc_",
        );
        push_str(&mut loc, service);
        push_str(&mut loc, ";\n        }");
        assert(loc@ =~= router_locations(*r, dirs@)[i as int]);
        let ghost prev = out@;
        let pushed = loc;
        out.push(pushed);
        proof {
            lemma_views_push(prev, pushed);
        }
        assert(views(out@) =~= start + router_locations(*r, dirs@).take(i + 1));
        i += 1;
    }
    assert(router_locations(*r, dirs@).take(i as int) =~= router_locations(*r, dirs@));
}

fn router_key_of(r: &RouterDocument) -> (k: u32)
    ensures
        k == router_key(*r),
{
    let rank: u32 = match r.spec.match_type {
        PathMatchType::Exact => 0,
        PathMatchType::Prefix => 1,
        PathMatchType::Regex => 2,
    };
    rank * 65536 + (65535 - r.spec.priority as u32)
}

/// The order in which a bundle's routers are rendered.
pub fn router_order_of(routers: &Vec<RouterDocument>) -> (r: Vec<usize>)
    ensures
        r@ == router_order(routers@),
{
    let mut keys: Vec<u32> = Vec::new();
    let mut i: usize = 0;
    while i < routers.len()
        invariant
            i <= routers.len(),
            keys@ == router_keys(routers@).take(i as int),
        decreases routers.len() - i,
    {
        keys.push(router_key_of(&routers[i]));
        assert(keys@ =~= router_keys(routers@).take(i + 1));
        i += 1;
    }
    assert(keys@ =~= router_keys(routers@));
    stable_order_of(&keys)
}

/// Routers are rendered exact matches first, then prefixes, then regular
/// expressions; within a kind by priority, highest first; routers of the
/// same kind and priority in bundle order. Every router is rendered once.
pub proof fn routers_render_in_match_order(routers: Seq<RouterDocument>)
    requires
        routers.len() <= usize::MAX,
    ensures
        crate::order::is_permutation_of_range(router_order(routers), routers.len()),
        forall|i: int, j: int|
            0 <= i < j < routers.len() ==> {
                let a = routers[#[trigger] router_order(routers)[i] as int];
                let b = routers[#[trigger] router_order(routers)[j] as int];
                ||| match_rank(a.spec.match_type) < match_rank(b.spec.match_type)
                ||| (match_rank(a.spec.match_type) == match_rank(b.spec.match_type)
                    && a.spec.priority > b.spec.priority)
                ||| (match_rank(a.spec.match_type) == match_rank(b.spec.match_type)
                    && a.spec.priority == b.spec.priority && router_order(routers)[i]
                    < router_order(routers)[j])
            },
{
    let keys = router_keys(routers);
    let order = router_order(routers);
    crate::order::stable_order_sorts(keys, routers.len());
    assert forall|i: int, j: int| 0 <= i < j < routers.len() implies {
        let a = routers[#[trigger] order[i] as int];
        let b = routers[#[trigger] order[j] as int];
        ||| match_rank(a.spec.match_type) < match_rank(b.spec.match_type)
        ||| (match_rank(a.spec.match_type) == match_rank(b.spec.match_type) && a.spec.priority
            > b.spec.priority)
        ||| (match_rank(a.spec.match_type) == match_rank(b.spec.match_type) && a.spec.priority
            == b.spec.priority && order[i] < order[j])
    } by {
        let a = routers[order[i] as int];
        let b = routers[order[j] as int];
        assert(keys[order[i] as int] == router_key(a));
        assert(keys[order[j] as int] == router_key(b));
        assert(match_rank(a.spec.match_type) <= 2 && match_rank(b.spec.match_type) <= 2);
    }
}

proof fn lemma_router_order_in_range(routers: Seq<RouterDocument>)
    requires
        routers.len() <= usize::MAX,
    ensures
        forall|k: int|
            0 <= k < router_order(routers).len() ==> router_order(routers)[k] < routers.len(),
{
    crate::order::stable_order_sorts(router_keys(routers), routers.len());
}

/// The `proxy_wasm` directive that hands a filter its configuration:
/// the module name, then the configuration text with its single quotes
/// escaped, in single quotes.
pub open spec fn configured_directive(module: Seq<char>, config: Seq<char>) -> Seq<char> {
    "proxy_wasm "@ + module + " '"@ + escape_single(config) + "';"@
}

proof fn lemma_filter_names()
    ensures
        dashes_to_underscores("auth-filter"@) == "auth_filter"@,
        dashes_to_underscores("header-filter"@) == "header_filter"@,
        dashes_to_underscores("rate-limit-filter"@) == "rate_limit_filter"@,
        "header-filter"@ != "auth-filter"@,
        "rate-limit-filter"@ != "auth-filter"@,
        "rate-limit-filter"@ != "header-filter"@,
{
    reveal_strlit("auth-filter");
    reveal_strlit("header-filter");
    reveal_strlit("rate-limit-filter");
    reveal_strlit("auth_filter");
    reveal_strlit("header_filter");
    reveal_strlit("rate_limit_filter");
    assert(dashes_to_underscores("auth-filter"@) =~= "auth_filter"@);
    assert(dashes_to_underscores("header-filter"@) =~= "header_filter"@);
    assert(dashes_to_underscores("rate-limit-filter"@) =~= "rate_limit_filter"@);
    assert("header-filter"@[0] != "auth-filter"@[0]);
    assert("rate-limit-filter"@[0] != "auth-filter"@[0]);
    assert("rate-limit-filter"@[0] != "header-filter"@[0]);
}

/// The directive line of a filter of the chain holds the configured
/// directive of the filters that take a configuration.
proof fn lemma_directive_line_configures(name: Seq<char>, auth: Seq<char>, header: Seq<char>, rate_limit: Seq<char>)
    ensures
        name == "auth-filter"@ ==> contains_text(
            directive_line(name, auth, header, rate_limit),
            configured_directive("auth_filter"@, auth),
        ),
        name == "header-filter"@ ==> contains_text(
            directive_line(name, auth, header, rate_limit),
            configured_directive("header_filter"@, header),
        ),
        name == "rate-limit-filter"@ ==> contains_text(
            directive_line(name, auth, header, rate_limit),
            configured_directive("rate_limit_filter"@, rate_limit),
        ),
{
    lemma_filter_names();
    reveal_strlit(" '");
    reveal_strlit("'");
    reveal_strlit(" ");
    reveal_strlit("';");
    reveal_strlit(";");
    let pad = "            "@;
    reveal_strlit("            ");
    reveal_strlit("            proxy_wasm ");
    reveal_strlit("proxy_wasm ");
    let cfg = if name == "auth-filter"@ {
        auth
    } else if name == "header-filter"@ {
        header
    } else {
        rate_limit
    };
    if name == "auth-filter"@ || name == "header-filter"@ || name == "rate-limit-filter"@ {
        let module = dashes_to_underscores(name);
        let d = configured_directive(module, cfg);
        assert(directive_line(name, auth, header, rate_limit) =~= pad + d);
        lemma_contains_self(d);
        lemma_contains_extend(d, pad, d);
    }
}

/// The rendered `proxy_wasm` lines of a chain hold the configured
/// directive of every configurable filter in the chain.
proof fn lemma_directives_configure(chain: Seq<String>, auth: Seq<char>, header: Seq<char>, rate_limit: Seq<char>, i: int)
    requires
        0 <= i < chain.len(),
    ensures
        chain[i]@ == "auth-filter"@ ==> contains_text(
            directives(chain, auth, header, rate_limit),
            configured_directive("auth_filter"@, auth),
        ),
        chain[i]@ == "header-filter"@ ==> contains_text(
            directives(chain, auth, header, rate_limit),
            configured_directive("header_filter"@, header),
        ),
        chain[i]@ == "rate-limit-filter"@ ==> contains_text(
            directives(chain, auth, header, rate_limit),
            configured_directive("rate_limit_filter"@, rate_limit),
        ),
{
    let lines = directive_lines(chain, auth, header, rate_limit);
    lemma_join_contains(lines, "\n"@, i);
    lemma_directive_line_configures(chain[i]@, auth, header, rate_limit);
    let line = lines[i];
    let all = directives(chain, auth, header, rate_limit);
    if chain[i]@ == "auth-filter"@ {
        lemma_contains_trans(all, line, configured_directive("auth_filter"@, auth));
    }
    if chain[i]@ == "header-filter"@ {
        lemma_contains_trans(all, line, configured_directive("header_filter"@, header));
    }
    if chain[i]@ == "rate-limit-filter"@ {
        lemma_contains_trans(all, line, configured_directive("rate_limit_filter"@, rate_limit));
    }
}

/// A location holds the `proxy_wasm` lines it is given.
proof fn lemma_location_holds_directives(
    keyword: Seq<char>,
    path: Seq<char>,
    route: Seq<char>,
    service: Seq<char>,
    methods: Seq<char>,
    dirs: Seq<char>,
)
    requires
        dirs.len() > 0,
    ensures
        contains_text(location_block(keyword, path, route, service, methods, dirs), dirs),
{
    let head = keyword + " "@ + path + " {\n            set $gateway_route_seed \""@ + route
        + "\";\n            set $gateway_service_seed \""@ + service
        + "\";\n            limit_except "@ + methods + " { deny all; }"@ + "\n"@;
    let tail = "\n            proxy_set_header X-Route-Id $gateway_route_seed;\n            proxy_set_header X-Service-Id $gateway_service_seed;\n            proxy_pass http://svc_"@
        + service + ";\n        }"@;
    assert(location_block(keyword, path, route, service, methods, dirs) =~= (head + dirs) + tail);
    lemma_contains_self(dirs);
    lemma_contains_extend(dirs, head, dirs);
    lemma_contains_extend(head + dirs, tail, dirs);
}

/// When the first router taken has a rule, some rendered location holds
/// the `proxy_wasm` lines.
proof fn lemma_ordered_locations_hold_directives(
    routers: Seq<RouterDocument>,
    order: Seq<usize>,
    dirs: Seq<char>,
)
    requires
        order.len() > 0,
        order[0] < routers.len(),
        routers[order[0] as int].spec.rules@.len() > 0,
        dirs.len() > 0,
    ensures
        exists|m: int|
            0 <= m < ordered_locations(routers, order, dirs).len() && contains_text(
                #[trigger] ordered_locations(routers, order, dirs)[m],
                dirs,
            ),
    decreases order.len(),
{
    let locs = ordered_locations(routers, order, dirs);
    if order.len() == 1 {
        let r = routers[order[0] as int];
        assert(order.drop_last().len() == 0);
        assert(ordered_locations(routers, order.drop_last(), dirs) =~= Seq::<Seq<char>>::empty());
        assert(locs =~= router_locations(r, dirs));
        lemma_location_holds_directives(
            location_keyword(r.spec.match_type),
            r.spec.rules@[0].path@,
            route_id(r.metadata.name@, 0),
            r.spec.config.destinations@[0].destination_ref.name@,
            methods_text(r.spec.rules@[0].methods@),
            dirs,
        );
        assert(contains_text(locs[0], dirs));
    } else {
        let prev = order.drop_last();
        assert(prev[0] == order[0]);
        lemma_ordered_locations_hold_directives(routers, prev, dirs);
        let pl = ordered_locations(routers, prev, dirs);
        let m = choose|m: int| 0 <= m < pl.len() && contains_text(#[trigger] pl[m], dirs);
        assert(locs[m] == pl[m]);
    }
}

/// Every location rendered from the routers taken in `order` holds the
/// `proxy_wasm` lines it is given.
proof fn lemma_every_location_holds_directives(
    routers: Seq<RouterDocument>,
    order: Seq<usize>,
    dirs: Seq<char>,
)
    requires
        dirs.len() > 0,
    ensures
        forall|m: int|
            0 <= m < ordered_locations(routers, order, dirs).len() ==> contains_text(
                #[trigger] ordered_locations(routers, order, dirs)[m],
                dirs,
            ),
    decreases order.len(),
{
    if order.len() > 0 {
        let prev = order.drop_last();
        lemma_every_location_holds_directives(routers, prev, dirs);
        let pl = ordered_locations(routers, prev, dirs);
        let r = routers[order.last() as int];
        let rl = router_locations(r, dirs);
        let locs = ordered_locations(routers, order, dirs);
        assert(locs =~= pl + rl);
        assert forall|m: int| 0 <= m < locs.len() implies contains_text(#[trigger] locs[m], dirs) by {
            if m < pl.len() {
                assert(locs[m] == pl[m]);
            } else {
                let j = m - pl.len();
                assert(locs[m] == rl[j]);
                lemma_location_holds_directives(
                    location_keyword(r.spec.match_type),
                    r.spec.rules@[j].path@,
                    route_id(r.metadata.name@, j as nat),
                    r.spec.config.destinations@[0].destination_ref.name@,
                    methods_text(r.spec.rules@[j].methods@),
                    dirs,
                );
            }
        }
    }
}

/// The locations of a bundle's routers, in the order they are rendered,
/// each with the `proxy_wasm` lines of the chain.
pub open spec fn bundle_locations(b: RevisionBundle, auth: Seq<char>, rate_limit: Seq<char>) -> Seq<
    Seq<char>,
> {
    let chain = b.plugin_chain@;
    ordered_locations(
        b.routers@,
        router_order(b.routers@),
        directives(chain, auth, header_filter_config(b.manifest.revision@, chain), rate_limit),
    )
}

/// Every location of a bundle hands the rate-limit filter of the chain
/// the bundle's rate-limit configuration, and the auth filter the secrets,
/// single quotes escaped.
pub proof fn every_location_configures_filters(
    b: RevisionBundle,
    auth: Seq<char>,
    rate_limit: Seq<char>,
    i: int,
    m: int,
)
    requires
        0 <= i < b.plugin_chain@.len(),
        0 <= m < bundle_locations(b, auth, rate_limit).len(),
    ensures
        b.plugin_chain@[i]@ == "auth-filter"@ ==> contains_text(
            bundle_locations(b, auth, rate_limit)[m],
            configured_directive("auth_filter"@, auth),
        ),
        b.plugin_chain@[i]@ == "rate-limit-filter"@ ==> contains_text(
            bundle_locations(b, auth, rate_limit)[m],
            configured_directive("rate_limit_filter"@, rate_limit),
        ),
{
    let chain = b.plugin_chain@;
    let header = header_filter_config(b.manifest.revision@, chain);
    let dirs = directives(chain, auth, header, rate_limit);
    let name = chain[i]@;
    lemma_filter_names();
    if name == "auth-filter"@ || name == "rate-limit-filter"@ {
        let target = if name == "auth-filter"@ {
            configured_directive("auth_filter"@, auth)
        } else {
            configured_directive("rate_limit_filter"@, rate_limit)
        };
        lemma_directives_configure(chain, auth, header, rate_limit, i);
        assert(contains_text(dirs, target));
        reveal_strlit("proxy_wasm ");
        assert(target.len() > 0);
        let k = choose|k: int| crate::conf_text::occurs_in_at(dirs, target, k);
        assert(dirs.len() > 0);
        lemma_every_location_holds_directives(b.routers@, router_order(b.routers@), dirs);
        let locs = bundle_locations(b, auth, rate_limit);
        assert(contains_text(locs[m], dirs));
        lemma_contains_trans(locs[m], dirs, target);
    }
}

/// In a bundle whose routers all have a rule, every location hands the
/// auth, header and rate-limit filters of the chain their configuration:
/// the secrets text, the header filter's revision/chain text and the
/// rate-limit text, each with single quotes escaped.
pub proof fn filters_receive_their_configuration(
    b: RevisionBundle,
    mime_types_path: Seq<char>,
    auth: Seq<char>,
    rate_limit: Seq<char>,
    i: int,
)
    requires
        0 <= i < b.plugin_chain@.len(),
        0 < b.routers@.len() <= usize::MAX,
        forall|r: int| 0 <= r < b.routers@.len() ==> (#[trigger] b.routers@[r]).spec.rules@.len() > 0,
    ensures
        b.plugin_chain@[i]@ == "auth-filter"@ ==> contains_text(
            nginx_conf(b, mime_types_path, auth, rate_limit),
            configured_directive("auth_filter"@, auth),
        ),
        b.plugin_chain@[i]@ == "header-filter"@ ==> contains_text(
            nginx_conf(b, mime_types_path, auth, rate_limit),
            configured_directive(
                "header_filter"@,
                "{\"revision\":\""@ + b.manifest.revision@ + "\",\"plugin_chain\":\""@ + join_with(
                    string_views(b.plugin_chain@),
                    ","@,
                ) + "\"}"@,
            ),
        ),
        b.plugin_chain@[i]@ == "rate-limit-filter"@ ==> contains_text(
            nginx_conf(b, mime_types_path, auth, rate_limit),
            configured_directive("rate_limit_filter"@, rate_limit),
        ),
{
    let chain = b.plugin_chain@;
    let header = header_filter_config(b.manifest.revision@, chain);
    let dirs = directives(chain, auth, header, rate_limit);
    let name = chain[i]@;
    lemma_filter_names();
    if name == "auth-filter"@ || name == "header-filter"@ || name == "rate-limit-filter"@ {
        let target = if name == "auth-filter"@ {
            configured_directive("auth_filter"@, auth)
        } else if name == "header-filter"@ {
            configured_directive("header_filter"@, header)
        } else {
            configured_directive("rate_limit_filter"@, rate_limit)
        };
        lemma_directives_configure(chain, auth, header, rate_limit, i);
        assert(contains_text(dirs, target));
        reveal_strlit("proxy_wasm ");
        assert(target.len() > 0);
        let k = choose|k: int| crate::conf_text::occurs_in_at(dirs, target, k);
        assert(dirs.len() > 0);
        let order = router_order(b.routers@);
        lemma_router_order_in_range(b.routers@);
        crate::order::stable_order_sorts(router_keys(b.routers@), b.routers@.len());
        assert(order.len() == b.routers@.len());
        assert(order[0] < b.routers@.len());
        lemma_ordered_locations_hold_directives(b.routers@, order, dirs);
        let locs = ordered_locations(b.routers@, order, dirs);
        let m = choose|m: int| 0 <= m < locs.len() && contains_text(#[trigger] locs[m], dirs);
        let sep = "\n\n        "@;
        let joined = join_with(locs, sep);
        lemma_join_contains(locs, sep, m);
        lemma_contains_trans(joined, locs[m], dirs);
        lemma_contains_trans(joined, dirs, target);
        let server = b.gateway.spec.server;
        let pre = "worker_processes  "@ + server.worker_processes@
            + ";\nworker_rlimit_nofile 65535;\npid logs/nginx.pid;\npcre_jit on;\nerror_log /dev/null crit;\n\n"@
            + wasm_block(chain, path_join(b.root@, "plugins"@)) + "events {\n    worker_connections  "@
            + dec_chars(server.worker_connections as nat)
            + ";\n    use epoll;\n    multi_accept on;\n    accept_mutex off;\n}\n\nhttp {\n    include       "@
            + mime_types_path + HTTP_SETTINGS@ + join_with(
            upstream_blocks(b.services@, server.keepalive_connections),
            "\n\n    "@,
        ) + "\n\n    server {\n        listen "@ + dec_chars(b.listener.spec.port as nat)
            + " backlog=4096;\n        server_name "@ + server_names(b.listener.spec.allowed_hostnames@)
            + ";\n\n        location = "@ + b.gateway.spec.metrics.path@ + STATUS_LOCATIONS@;
        let tail = "\n    }\n}\n"@;
        assert(nginx_conf(b, mime_types_path, auth, rate_limit) == (pre + joined) + tail);
        lemma_contains_extend(joined, pre, target);
        lemma_contains_extend(pre + joined, tail, target);
    }
}

impl NginxManager {
    /// A manager running the given nginx binary.
    pub fn new(binary: String) -> (m: Self)
        ensures
            m.binary == binary,
    {
        NginxManager { binary }
    }

    /// The nginx configuration of `bundle`. `mime_types_path` is the MIME
    /// table under the nginx configuration directory; `auth_config` and
    /// `rate_limit_config` are the contents of the bundle's secrets and
    /// rate-limit files (`{}` when absent).
    pub fn build_conf(
        &self,
        bundle: &RevisionBundle,
        mime_types_path: &str,
        auth_config: &str,
        rate_limit_config: &str,
    ) -> (conf: String)
        requires
            renderable(*bundle),
        ensures
            conf@ == nginx_conf(*bundle, mime_types_path@, auth_config@, rate_limit_config@),
    {
        let chain = &bundle.plugin_chain;
        let header = header_filter_config_of(bundle.manifest.revision.as_str(), chain);
        let dirs = directives_of(chain, auth_config, header.as_str(), rate_limit_config);
        let plugins_dir = join_path(bundle.root.as_str(), "plugins");
        let server = &bundle.gateway.spec.server;
        let mut out: Vec<char> = Vec::new();
        push_str(&mut out, "worker_processes  ");
        push_str(&mut out, server.worker_processes.as_str());
        push_str(
            &mut out,
            ";\nworker_rlimit_nofile 65535;\npid logs/nginx.pid;\npcre_jit on;\nerror_log /dev/null crit;\n\n",
        );
        let wasm = wasm_block_of(chain, plugins_dir.as_str());
        push_all(&mut out, &wasm, 0, wasm.len());
        assert(wasm@.subrange(0, wasm@.len() as int) =~= wasm@);
        push_str(&mut out, "events {\n    worker_connections  ");
        push_dec(&mut out, server.worker_connections as u64);
        push_str(
            &mut out,
            ";\n    use epoll;\n    multi_accept on;\n    accept_mutex off;\n}\n\nhttp {\n    include       ",
        );
        push_str(&mut out, mime_types_path);
        push_str(&mut out, HTTP_SETTINGS);
        let ghost before_upstreams = out@;
        let mut blocks: Vec<Vec<char>> = Vec::new();
        let services = &bundle.services;
        let mut i: usize = 0;
        while i < services.len()
            invariant
                i <= services.len(),
                services == bundle.services,
                server.keepalive_connections == bundle.gateway.spec.server.keepalive_connections,
                views(blocks@) == upstream_blocks(
                    services@,
                    bundle.gateway.spec.server.keepalive_connections,
                ).take(i as int),
            decreases services.len() - i,
        {
            let ghost prev = blocks@;
            let pushed = upstream_block_of(&services[i], server.keepalive_connections);
            blocks.push(pushed);
            proof {
                lemma_views_push(prev, pushed);
            }
            assert(views(blocks@) =~= upstream_blocks(
                services@,
                bundle.gateway.spec.server.keepalive_connections,
            ).take(i + 1));
            i += 1;
        }
        assert(upstream_blocks(services@, bundle.gateway.spec.server.keepalive_connections).take(
            i as int,
        ) =~= upstream_blocks(services@, bundle.gateway.spec.server.keepalive_connections));
        push_joined(&mut out, &blocks, "\n\n    ");
        push_str(&mut out, "\n\n    server {\n        listen ");
        push_dec(&mut out, bundle.listener.spec.port as u64);
        push_str(&mut out, " backlog=4096;\n        server_name ");
        let hosts = &bundle.listener.spec.allowed_hostnames;
        if hosts.len() == 0 {
            push_str(&mut out, "_");
        } else {
            let hs = strings_chars(hosts);
            push_joined(&mut out, &hs, " ");
        }
        push_str(&mut out, ";\n\n        location = ");
        push_str(&mut out, bundle.gateway.spec.metrics.path.as_str());
        push_str(&mut out, STATUS_LOCATIONS);
        let ghost before_locations = out@;
        let order = router_order_of(&bundle.routers);
        let n_routers = bundle.routers.len();
        proof {
            lemma_router_order_in_range(bundle.routers@);
        }
        let mut locs: Vec<Vec<char>> = Vec::new();
        let mut k: usize = 0;
        assert(order@.take(0) =~= Seq::<usize>::empty());
        while k < order.len()
            invariant
                k <= order.len(),
                order@ == router_order(bundle.routers@),
                forall|m: int| 0 <= m < order.len() ==> order[m] < bundle.routers@.len(),
                renderable(*bundle),
                views(locs@) == ordered_locations(
                    bundle.routers@,
                    order@.take(k as int),
                    dirs@,
                ),
            decreases order.len() - k,
        {
            let idx = order[k];
            router_locations_of(&bundle.routers[idx], &dirs, &mut locs);
            assert(order@.take(k + 1).drop_last() =~= order@.take(k as int));
            k += 1;
        }
        assert(order@.take(k as int) =~= order@);
        push_joined(&mut out, &locs, "\n\n        ");
        push_str(&mut out, "\n    }\n}\n");
        assert(out@ =~= nginx_conf(*bundle, mime_types_path@, auth_config@, rate_limit_config@));
        assert(out@.subrange(0, out@.len() as int) =~= out@);
        string_of(&out, 0, out.len())
    }
}

/// An ASCII digit.
pub open spec fn ascii_digit(c: char) -> bool {
    '0' <= c <= '9'
}

/// The pid file names a running master: once trimmed, its text is a
/// non-empty run of ASCII digits. A missing file names none.
pub open spec fn pid_text_ready(text: Option<Seq<char>>) -> bool {
    match text {
        None => false,
        Some(t) => trim(t).len() > 0 && forall|i: int|
            0 <= i < trim(t).len() ==> ascii_digit(#[trigger] trim(t)[i]),
    }
}

/// Whether nginx is running, from the text of its pid file (`None` when
/// the file is missing or unreadable): a running master is reloaded, else
/// nginx is started.
pub fn pid_ready(text: Option<&str>) -> (r: bool)
    ensures
        r == pid_text_ready(match text {
            Some(t) => Some(t@),
            None => None,
        }),
{
    match text {
        None => false,
        Some(t) => {
            let v = chars_of(trim_str(t).as_str());
            if v.len() == 0 {
                return false;
            }
            let mut i: usize = 0;
            while i < v.len()
                invariant
                    text == Some(t),
                    v@ == trim(t@),
                    i <= v.len(),
                    forall|j: int| 0 <= j < i ==> ascii_digit(#[trigger] v@[j]),
                decreases v.len() - i,
            {
                if !('0' <= v[i] && v[i] <= '9') {
                    assert(!ascii_digit(trim(t@)[i as int]));
                    return false;
                }
                i += 1;
            }
            true
        },
    }
}

/// The message of a successful activation: what nginx printed, or `ok`
/// when it printed nothing but whitespace.
pub fn activation_message(output: &str) -> (r: String)
    ensures
        r@ == if trim(output@).len() == 0 {
            "ok"@
        } else {
            output@
        },
{
    let t = chars_of(trim_str(output).as_str());
    let v = if t.len() == 0 {
        chars_of("ok")
    } else {
        chars_of(output)
    };
    assert(v@.subrange(0, v@.len() as int) =~= v@);
    string_of(&v, 0, v.len())
}

/// The error of a failed `nginx -t` or activation: what nginx printed,
/// trimmed.
pub fn nginx_failure(output: &str) -> (r: String)
    ensures
        r@ == trim(output@),
{
    trim_str(output)
}

} // verus!
