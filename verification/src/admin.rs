//! The admin API's decisions: which handler a request goes to, the
//! metrics exposition, the HTTP status of deploy and load answers, and the
//! plugin check that runs a request through tenant, key and rate-limit
//! checks against the current revision. The HTTP server, the files and the
//! clock are handled around these functions.

use vstd::prelude::*;
use crate::conf_text::{
    contains_text, join_with, lemma_contains_extend, lemma_contains_self, lemma_contains_trans,
    lemma_join_contains, push_joined, views,
};
use crate::models::{DeployResult, LoadResult, MetricsState, RevisionBundle, RouterDocument};
use crate::nginx::{string_views, strings_chars};
use crate::numtext::{dec_chars, dec_of};
use crate::providers::{
    bucket_after, bucket_or_new, consume_rate_limit, effective_rule, entry_value, RateLimitConfig,
    RateLimitDecision, RateLimitState,
};
use crate::rate_limit::route_key;
use crate::runtime::{DeployError, starts_with};
use crate::text::{chars_of, concat2, owned, push_all, push_str, same_text, string_of};

verus! {

/// The handler an admin request goes to.
pub enum AdminRoute {
    Status,
    Metrics,
    PluginCheck,
    Deploy,
    LoadRevision,
    NotFound,
}

/// The handler for `method` and `url`: `GET /status`, `GET /metrics`,
/// `GET` or `POST /plugin-check`, `POST /deploy`, and
/// `POST /admin/revisions/load` with its alias `POST /admin/config`.
pub open spec fn route_for(method: Seq<char>, url: Seq<char>) -> AdminRoute {
    if method == "GET"@ && url == "/status"@ {
        AdminRoute::Status
    } else if method == "GET"@ && url == "/metrics"@ {
        AdminRoute::Metrics
    } else if (method == "GET"@ || method == "POST"@) && url == "/plugin-check"@ {
        AdminRoute::PluginCheck
    } else if method == "POST"@ && url == "/deploy"@ {
        AdminRoute::Deploy
    } else if method == "POST"@ && (url == "/admin/revisions/load"@ || url
        == "/admin/config"@) {
        AdminRoute::LoadRevision
    } else {
        AdminRoute::NotFound
    }
}

/// The handler of a request.
pub fn route_request(method: &str, url: &str) -> (r: AdminRoute)
    ensures
        r == route_for(method@, url@),
{
    let get = same_text(method, "GET");
    let post = same_text(method, "POST");
    if get && same_text(url, "/status") {
        AdminRoute::Status
    } else if get && same_text(url, "/metrics") {
        AdminRoute::Metrics
    } else if (get || post) && same_text(url, "/plugin-check") {
        AdminRoute::PluginCheck
    } else if post && same_text(url, "/deploy") {
        AdminRoute::Deploy
    } else if post && (same_text(url, "/admin/revisions/load") || same_text(url, "/admin/config")) {
        AdminRoute::LoadRevision
    } else {
        AdminRoute::NotFound
    }
}

/// One counter in the Prometheus text format: its help, its type and its
/// value.
pub open spec fn counter_block(name: Seq<char>, help: Seq<char>, value: u64) -> Seq<char> {
    "# HELP "@ + name + " "@ + help + "\n# TYPE "@ + name + " counter\n"@ + name + " "@
        + dec_chars(value as nat) + "\n"@
}

/// The metrics exposition of the counters.
pub open spec fn metrics_exposition(m: MetricsState) -> Seq<char> {
    counter_block("gateway_reload_total"@, "Total nginx reload attempts"@, m.gateway_reload_total)
        + counter_block(
        "gateway_reload_failures_total"@,
        "Total nginx reload failures"@,
        m.gateway_reload_failures_total,
    ) + counter_block(
        "gateway_requests_total"@,
        "Total number of requests processed"@,
        m.gateway_requests_total,
    ) + counter_block(
        "gateway_request_duration_ms"@,
        "Request duration in milliseconds"@,
        m.gateway_request_duration_ms,
    ) + counter_block(
        "gateway_plugin_executions_total"@,
        "Total plugin executions"@,
        m.gateway_plugin_executions_total,
    ) + counter_block(
        "gateway_plugin_failures_total"@,
        "Total plugin failures"@,
        m.gateway_plugin_failures_total,
    ) + counter_block(
        "gateway_policy_denied_total"@,
        "Total requests denied by policy"@,
        m.gateway_policy_denied_total,
    ) + counter_block(
        "gateway_rate_limit_denied_total"@,
        "Total requests denied by rate limit"@,
        m.gateway_rate_limit_denied_total,
    )
}

/// The line a counter is reported on: its name, a space and its value.
pub open spec fn counter_line(name: Seq<char>, value: u64) -> Seq<char> {
    "\n"@ + name + " "@ + dec_chars(value as nat) + "\n"@
}

proof fn lemma_block_has_line(name: Seq<char>, help: Seq<char>, value: u64)
    ensures
        contains_text(counter_block(name, help, value), counter_line(name, value)),
{
    let head = "# HELP "@ + name + " "@ + help + "\n# TYPE "@ + name + " counter"@;
    reveal_strlit(" counter\n");
    reveal_strlit(" counter");
    reveal_strlit("\n");
    assert(counter_block(name, help, value) =~= head + counter_line(name, value));
    lemma_contains_self(counter_line(name, value));
    lemma_contains_extend(counter_line(name, value), head, counter_line(name, value));
}

/// The metrics text reports every counter on a line of its own, with the
/// counter's own value.
#[verifier::rlimit(100)]
pub proof fn metrics_report_every_counter(m: MetricsState)
    ensures
        contains_text(
            metrics_exposition(m),
            counter_line("gateway_reload_total"@, m.gateway_reload_total),
        ),
        contains_text(
            metrics_exposition(m),
            counter_line("gateway_reload_failures_total"@, m.gateway_reload_failures_total),
        ),
        contains_text(
            metrics_exposition(m),
            counter_line("gateway_requests_total"@, m.gateway_requests_total),
        ),
        contains_text(
            metrics_exposition(m),
            counter_line("gateway_request_duration_ms"@, m.gateway_request_duration_ms),
        ),
        contains_text(
            metrics_exposition(m),
            counter_line("gateway_plugin_executions_total"@, m.gateway_plugin_executions_total),
        ),
        contains_text(
            metrics_exposition(m),
            counter_line("gateway_plugin_failures_total"@, m.gateway_plugin_failures_total),
        ),
        contains_text(
            metrics_exposition(m),
            counter_line("gateway_policy_denied_total"@, m.gateway_policy_denied_total),
        ),
        contains_text(
            metrics_exposition(m),
            counter_line("gateway_rate_limit_denied_total"@, m.gateway_rate_limit_denied_total),
        ),
{
    let names = seq![
        "gateway_reload_total"@,
        "gateway_reload_failures_total"@,
        "gateway_requests_total"@,
        "gateway_request_duration_ms"@,
        "gateway_plugin_executions_total"@,
        "gateway_plugin_failures_total"@,
        "gateway_policy_denied_total"@,
        "gateway_rate_limit_denied_total"@,
    ];
    let helps = seq![
        "Total nginx reload attempts"@,
        "Total nginx reload failures"@,
        "Total number of requests processed"@,
        "Request duration in milliseconds"@,
        "Total plugin executions"@,
        "Total plugin failures"@,
        "Total requests denied by policy"@,
        "Total requests denied by rate limit"@,
    ];
    let values = seq![
        m.gateway_reload_total,
        m.gateway_reload_failures_total,
        m.gateway_requests_total,
        m.gateway_request_duration_ms,
        m.gateway_plugin_executions_total,
        m.gateway_plugin_failures_total,
        m.gateway_policy_denied_total,
        m.gateway_rate_limit_denied_total,
    ];
    let blocks = Seq::new(8, |i: int| counter_block(names[i], helps[i], values[i]));
    assert(metrics_exposition(m) =~= join_with(blocks, Seq::empty())) by {
        reveal_with_fuel(join_with, 9);
        assert(blocks.drop_last().drop_last().drop_last().drop_last().drop_last().drop_last().drop_last()
            =~= seq![blocks[0]]);
    }
    assert forall|i: int| 0 <= i < 8 implies contains_text(
        metrics_exposition(m),
        #[trigger] counter_line(names[i], values[i]),
    ) by {
        lemma_join_contains(blocks, Seq::empty(), i);
        lemma_block_has_line(names[i], helps[i], values[i]);
        lemma_contains_trans(
            metrics_exposition(m),
            blocks[i],
            counter_line(names[i], values[i]),
        );
    }
    assert(counter_line(names[0], values[0]) == counter_line("gateway_reload_total"@, m.gateway_reload_total));
    assert(counter_line(names[1], values[1]) == counter_line("gateway_reload_failures_total"@, m.gateway_reload_failures_total));
    assert(counter_line(names[2], values[2]) == counter_line("gateway_requests_total"@, m.gateway_requests_total));
    assert(counter_line(names[3], values[3]) == counter_line("gateway_request_duration_ms"@, m.gateway_request_duration_ms));
    assert(counter_line(names[4], values[4]) == counter_line("gateway_plugin_executions_total"@, m.gateway_plugin_executions_total));
    assert(counter_line(names[5], values[5]) == counter_line("gateway_plugin_failures_total"@, m.gateway_plugin_failures_total));
    assert(counter_line(names[6], values[6]) == counter_line("gateway_policy_denied_total"@, m.gateway_policy_denied_total));
    assert(counter_line(names[7], values[7]) == counter_line("gateway_rate_limit_denied_total"@, m.gateway_rate_limit_denied_total));
}

fn push_counter(out: &mut Vec<char>, name: &str, help: &str, value: u64)
    ensures
        final(out)@ == old(out)@ + counter_block(name@, help@, value),
{
    push_str(out, "# HELP ");
    push_str(out, name);
    push_str(out, " ");
    push_str(out, help);
    push_str(out, "\n# TYPE ");
    push_str(out, name);
    push_str(out, " counter\n");
    push_str(out, name);
    push_str(out, " ");
    let d = dec_of(value);
    push_all(out, &d, 0, d.len());
    assert(d@.subrange(0, d@.len() as int) =~= d@);
    push_str(out, "\n");
    assert(final(out)@ =~= old(out)@ + counter_block(name@, help@, value));
}

/// The body of `GET /metrics`.
pub fn metrics_text(m: &MetricsState) -> (r: String)
    ensures
        r@ == metrics_exposition(*m),
{
    let mut out: Vec<char> = Vec::new();
    push_counter(&mut out, "gateway_reload_total", "Total nginx reload attempts", m.gateway_reload_total);
    push_counter(
        &mut out,
        "gateway_reload_failures_total",
        "Total nginx reload failures",
        m.gateway_reload_failures_total,
    );
    push_counter(
        &mut out,
        "gateway_requests_total",
        "Total number of requests processed",
        m.gateway_requests_total,
    );
    push_counter(
        &mut out,
        "gateway_request_duration_ms",
        "Request duration in milliseconds",
        m.gateway_request_duration_ms,
    );
    push_counter(
        &mut out,
        "gateway_plugin_executions_total",
        "Total plugin executions",
        m.gateway_plugin_executions_total,
    );
    push_counter(
        &mut out,
        "gateway_plugin_failures_total",
        "Total plugin failures",
        m.gateway_plugin_failures_total,
    );
    push_counter(
        &mut out,
        "gateway_policy_denied_total",
        "Total requests denied by policy",
        m.gateway_policy_denied_total,
    );
    push_counter(
        &mut out,
        "gateway_rate_limit_denied_total",
        "Total requests denied by rate limit",
        m.gateway_rate_limit_denied_total,
    );
    assert(out@ =~= metrics_exposition(*m));
    assert(out@.subrange(0, out@.len() as int) =~= out@);
    string_of(&out, 0, out.len())
}

/// The HTTP status of a deploy answer: 200 applied, 202 staged, 500
/// failed, 400 for a bad request and 500 for an internal error.
pub fn deploy_http_status(r: &Result<DeployResult, DeployError>) -> (code: u16)
    ensures
        code == match r {
            Ok(d) => if d.status@ == "applied"@ {
                200u16
            } else if d.status@ == "staged"@ {
                202u16
            } else {
                500u16
            },
            Err(DeployError::BadRequest(_)) => 400u16,
            Err(DeployError::Internal(_)) => 500u16,
        },
{
    match r {
        Ok(d) => if same_text(d.status.as_str(), "applied") {
            200
        } else if same_text(d.status.as_str(), "staged") {
            202
        } else {
            500
        },
        Err(DeployError::BadRequest(_)) => 400,
        Err(DeployError::Internal(_)) => 500,
    }
}

/// The HTTP status of a load answer: 200 when loaded, else 400.
pub fn load_http_status(r: &LoadResult) -> (code: u16)
    ensures
        code == if r.status@ == "loaded"@ {
            200u16
        } else {
            400u16
        },
{
    if same_text(r.status.as_str(), "loaded") {
        200
    } else {
        400
    }
}

/// A character's code with ASCII upper case folded to lower case.
pub open spec fn folded(c: char) -> int {
    if 'A' <= c <= 'Z' {
        c as int + 32
    } else {
        c as int
    }
}

/// Two header names are the same, ignoring ASCII case.
pub open spec fn same_name(a: Seq<char>, b: Seq<char>) -> bool {
    a.len() == b.len() && forall|i: int| 0 <= i < a.len() ==> folded(#[trigger] a[i]) == folded(b[i])
}

/// The value of the first header named `name`, ignoring ASCII case.
pub open spec fn header_lookup(headers: Seq<(Seq<char>, Seq<char>)>, name: Seq<char>) -> Option<
    Seq<char>,
>
    decreases headers.len(),
{
    if headers.len() == 0 {
        None
    } else if same_name(headers[0].0, name) {
        Some(headers[0].1)
    } else {
        header_lookup(headers.drop_first(), name)
    }
}

fn fold_char(c: char) -> (r: u32)
    ensures
        r == folded(c),
{
    if 'A' <= c && c <= 'Z' {
        (c as u32) + 32
    } else {
        c as u32
    }
}

fn same_name_exec(a: &str, b: &str) -> (r: bool)
    ensures
        r == same_name(a@, b@),
{
    let x = chars_of(a);
    let y = chars_of(b);
    if x.len() != y.len() {
        return false;
    }
    let mut i: usize = 0;
    while i < x.len()
        invariant
            x@ == a@,
            y@ == b@,
            x.len() == y.len(),
            i <= x.len(),
            forall|j: int| 0 <= j < i ==> folded(#[trigger] x@[j]) == folded(y@[j]),
        decreases x.len() - i,
    {
        if fold_char(x[i]) != fold_char(y[i]) {
            assert(folded(a@[i as int]) != folded(b@[i as int]));
            return false;
        }
        i += 1;
    }
    true
}

/// The value of a request header, its name compared ignoring ASCII case.
pub fn header_value(headers: &Vec<(String, String)>, name: &str) -> (r: Option<String>)
    ensures
        match r {
            Some(v) => header_lookup(headers.deep_view(), name@) == Some(v@),
            None => header_lookup(headers.deep_view(), name@) is None,
        },
{
    let ghost all = headers.deep_view();
    let mut i: usize = 0;
    assert(all.skip(0) =~= all);
    while i < headers.len()
        invariant
            i <= headers.len(),
            all == headers.deep_view(),
            header_lookup(all, name@) == header_lookup(all.skip(i as int), name@),
        decreases headers.len() - i,
    {
        let ghost rest = all.skip(i as int);
        assert(rest[0] == (headers[i as int].0@, headers[i as int].1@));
        if same_name_exec(headers[i].0.as_str(), name) {
            return Some(headers[i].1.clone());
        }
        assert(rest.drop_first() =~= all.skip(i + 1));
        i += 1;
    }
    assert(all.skip(i as int) =~= Seq::<(Seq<char>, Seq<char>)>::empty());
    None
}

/// A lowercase hexadecimal digit.
pub open spec fn lower_hex(c: char) -> bool {
    ('0' <= c <= '9') || ('a' <= c <= 'f')
}

/// The text of a random (version 4) UUID in its hyphenated form:
/// 36 characters, hyphens at 8, 13, 18 and 23, lowercase hexadecimal
/// elsewhere, the version digit `4` at 14 and the variant digit (`8`, `9`,
/// `a` or `b`) at 19.
pub open spec fn is_v4_uuid_text(s: Seq<char>) -> bool {
    &&& s.len() == 36
    &&& forall|i: int|
        0 <= i < 36 ==> if i == 8 || i == 13 || i == 18 || i == 23 {
            #[trigger] s[i] == '-'
        } else {
            lower_hex(s[i])
        }
    &&& s[14] == '4'
    &&& s[19] == '8' || s[19] == '9' || s[19] == 'a' || s[19] == 'b'
}

/// A fresh identifier: `uuid::Uuid::new_v4()` rendered with `Display`.
/// The value is random; the contract states only its shape, which the
/// crate's hyphenated formatting and version/variant bits fix. It panics
/// only if the operating system gives no random bytes.
#[verifier::external_body]
fn fresh_uuid() -> (r: String)
    ensures
        is_v4_uuid_text(r@),
{
    uuid::Uuid::new_v4().to_string()
}

/// The value of a header, or a fresh UUID when the request has none.
pub fn header_or_uuid(headers: &Vec<(String, String)>, name: &str) -> (r: String)
    ensures
        match header_lookup(headers.deep_view(), name@) {
            Some(v) => r@ == v,
            None => is_v4_uuid_text(r@),
        },
{
    match header_value(headers, name) {
        Some(v) => v,
        None => fresh_uuid(),
    }
}

/// A router serves a route id that starts with the router's name, and
/// every router serves a route id that starts with `/`.
pub open spec fn serves(router: RouterDocument, route_id: Seq<char>) -> bool {
    starts_with(route_id, router.metadata.name@) || starts_with(route_id, "/"@)
}

/// The first router serving the route id, if any.
pub open spec fn first_serving(routers: Seq<RouterDocument>, route_id: Seq<char>) -> Option<
    RouterDocument,
>
    decreases routers.len(),
{
    if routers.len() == 0 {
        None
    } else if serves(routers[0], route_id) {
        Some(routers[0])
    } else {
        first_serving(routers.drop_first(), route_id)
    }
}

/// The service behind a route id: the first destination of the first
/// router serving it; else the first service of the bundle.
pub open spec fn route_service(bundle: RevisionBundle, route_id: Seq<char>) -> Option<Seq<char>> {
    match first_serving(bundle.routers@, route_id) {
        Some(r) => Some(r.spec.config.destinations@[0].destination_ref.name@),
        None => if bundle.services@.len() > 0 {
            Some(bundle.services@[0].metadata.name@)
        } else {
            None
        },
    }
}

/// The router serving the route id, if there is one, has a destination.
pub open spec fn route_resolvable(bundle: RevisionBundle, route_id: Seq<char>) -> bool {
    match first_serving(bundle.routers@, route_id) {
        Some(r) => r.spec.config.destinations@.len() > 0,
        None => true,
    }
}

fn has_prefix_str(s: &str, p: &str) -> (r: bool)
    ensures
        r == starts_with(s@, p@),
{
    let x = chars_of(s);
    let y = chars_of(p);
    if y.len() > x.len() {
        return false;
    }
    let mut i: usize = 0;
    while i < y.len()
        invariant
            x@ == s@,
            y@ == p@,
            y.len() <= x.len(),
            i <= y.len(),
            forall|j: int| 0 <= j < i ==> x@[j] == y@[j],
        decreases y.len() - i,
    {
        if x[i] != y[i] {
            assert(s@.take(p@.len() as int)[i as int] != p@[i as int]);
            return false;
        }
        i += 1;
    }
    assert(s@.take(p@.len() as int) =~= p@);
    true
}

/// The service behind a route id.
pub fn service_for_route(bundle: &RevisionBundle, route_id: &str) -> (r: Option<String>)
    requires
        route_resolvable(*bundle, route_id@),
    ensures
        match r {
            Some(s) => route_service(*bundle, route_id@) == Some(s@),
            None => route_service(*bundle, route_id@) is None,
        },
{
    let mut i: usize = 0;
    let ghost all = bundle.routers@;
    assert(all.skip(0) =~= all);
    while i < bundle.routers.len()
        invariant
            i <= bundle.routers.len(),
            all == bundle.routers@,
            first_serving(all, route_id@) == first_serving(all.skip(i as int), route_id@),
            route_resolvable(*bundle, route_id@),
        decreases bundle.routers.len() - i,
    {
        let router = &bundle.routers[i];
        assert(all.skip(i as int)[0] == *router);
        if has_prefix_str(route_id, router.metadata.name.as_str()) || has_prefix_str(route_id, "/") {
            return Some(router.spec.config.destinations[0].destination_ref.name.clone());
        }
        assert(all.skip(i as int).drop_first() =~= all.skip(i + 1));
        i += 1;
    }
    assert(all.skip(i as int) =~= Seq::<RouterDocument>::empty());
    if bundle.services.len() > 0 {
        Some(bundle.services[0].metadata.name.clone())
    } else {
        None
    }
}

/// The identifiers of a plugin-check request.
pub struct CheckRequest {
    pub request_id: String,
    pub trace_id: String,
    pub tenant_id: String,
    pub route_id: String,
    pub service_id: String,
    pub api_key: String,
}

/// The value of a header, or `default` when the request has none.
pub open spec fn header_or(
    headers: Seq<(Seq<char>, Seq<char>)>,
    name: Seq<char>,
    default: Seq<char>,
) -> Seq<char> {
    match header_lookup(headers, name) {
        Some(v) => v,
        None => default,
    }
}

/// The route id of a request: its `X-Route-Id`, else `unknown-route`.
pub open spec fn request_route(headers: Seq<(Seq<char>, Seq<char>)>) -> Seq<char> {
    header_or(headers, "X-Route-Id"@, "unknown-route"@)
}

/// The service of a request: its `X-Service-Id`, else the service behind
/// its route, else `unknown-service`.
pub open spec fn request_service(headers: Seq<(Seq<char>, Seq<char>)>, bundle: RevisionBundle) -> Seq<
    char,
> {
    match header_lookup(headers, "X-Service-Id"@) {
        Some(v) => v,
        None => match route_service(bundle, request_route(headers)) {
            Some(s) => s,
            None => "unknown-service"@,
        },
    }
}

/// The service of a request can be found without a router lacking a
/// destination.
pub open spec fn check_request_resolvable(
    headers: Seq<(Seq<char>, Seq<char>)>,
    bundle: RevisionBundle,
) -> bool {
    header_lookup(headers, "X-Service-Id"@) is None ==> route_resolvable(
        bundle,
        request_route(headers),
    )
}

fn header_or_default(headers: &Vec<(String, String)>, name: &str, default: &str) -> (r: String)
    ensures
        r@ == header_or(headers.deep_view(), name@, default@),
{
    match header_value(headers, name) {
        Some(v) => v,
        None => owned(default),
    }
}

/// The identifiers of a plugin-check request, from its headers: request
/// and trace ids (fresh UUIDs when missing), tenant and API key (empty when
/// missing), route (`unknown-route` when missing) and service.
pub fn resolve_check_request(headers: &Vec<(String, String)>, bundle: &RevisionBundle) -> (r:
    CheckRequest)
    requires
        check_request_resolvable(headers.deep_view(), *bundle),
    ensures
        match header_lookup(headers.deep_view(), "X-Request-Id"@) {
            Some(v) => r.request_id@ == v,
            None => is_v4_uuid_text(r.request_id@),
        },
        match header_lookup(headers.deep_view(), "X-Trace-Id"@) {
            Some(v) => r.trace_id@ == v,
            None => is_v4_uuid_text(r.trace_id@),
        },
        r.tenant_id@ == header_or(headers.deep_view(), "X-Tenant-Id"@, Seq::empty()),
        r.route_id@ == request_route(headers.deep_view()),
        r.service_id@ == request_service(headers.deep_view(), *bundle),
        r.api_key@ == header_or(headers.deep_view(), "X-Api-Key"@, Seq::empty()),
{
    let request_id = header_or_uuid(headers, "X-Request-Id");
    let trace_id = header_or_uuid(headers, "X-Trace-Id");
    let tenant_id = header_or_default(headers, "X-Tenant-Id", "");
    proof {
        reveal_strlit("");
    }
    let route_id = header_or_default(headers, "X-Route-Id", "unknown-route");
    let service_id = match header_value(headers, "X-Service-Id") {
        Some(v) => v,
        None => match service_for_route(bundle, route_id.as_str()) {
            Some(s) => s,
            None => owned("unknown-service"),
        },
    };
    let api_key = header_or_default(headers, "X-Api-Key", "");
    CheckRequest { request_id, trace_id, tenant_id, route_id, service_id, api_key }
}

/// `name:version` of each plugin of the manifest.
pub open spec fn plugin_versions(plugins: Seq<crate::models::PluginManifest>) -> Seq<Seq<char>> {
    Seq::new(plugins.len(), |i: int| plugins[i].name@ + seq![':'] + plugins[i].version@)
}

/// The last component of a path: what follows its last `/`.
pub open spec fn file_name_of(path: Seq<char>) -> Seq<char> {
    match crate::text::find_last(path, crate::text::eq_char('/')) {
        Some(i) => path.skip(i + 1),
        None => path,
    }
}

/// A policy shows in a check of `service` when it targets the service,
/// or a route whose name starts with `orders-route`.
pub open spec fn policy_shown(p: crate::models::PolicyEntry, service: Seq<char>) -> bool {
    p.document.spec.target_ref.name@ == service || starts_with(
        p.document.spec.target_ref.name@,
        "orders-route"@,
    )
}

/// The file names of the policies shown in a check of `service`, in order.
pub open spec fn policy_files(policies: Seq<crate::models::PolicyEntry>, service: Seq<char>) -> Seq<
    Seq<char>,
>
    decreases policies.len(),
{
    if policies.len() == 0 {
        Seq::empty()
    } else {
        let n = policies.len() - 1;
        policy_files(policies.take(n), service) + if policy_shown(policies[n], service) {
            seq![file_name_of(policies[n].source_file@)]
        } else {
            Seq::empty()
        }
    }
}

/// The headers every plugin-check answer carries.
pub open spec fn base_header_list(r: CheckRequest, bundle: RevisionBundle) -> Seq<
    (Seq<char>, Seq<char>),
> {
    seq![
        ("X-Request-Id"@, r.request_id@),
        ("X-Trace-Id"@, r.trace_id@),
        ("X-Tenant-Id"@, r.tenant_id@),
        ("X-Route-Id"@, r.route_id@),
        ("X-Service-Id"@, r.service_id@),
        ("X-Gateway-Revision"@, bundle.manifest.revision@),
        ("X-Gateway-Plugin-Chain"@, join_with(string_views(bundle.plugin_chain@), ","@)),
        ("X-Gateway-Policy-Profile"@, "default"@),
        ("X-Gateway-Plugin-Version"@, join_with(plugin_versions(bundle.manifest.plugins@), ","@)),
        ("X-Gateway-Policy-Files"@, join_with(policy_files(bundle.policies@, r.service_id@), ","@)),
    ]
}

fn joined(pieces: &Vec<Vec<char>>) -> (r: String)
    ensures
        r@ == join_with(views(pieces@), ","@),
{
    let mut out: Vec<char> = Vec::new();
    push_joined(&mut out, pieces, ",");
    assert(out@ =~= join_with(views(pieces@), ","@));
    assert(out@.subrange(0, out@.len() as int) =~= out@);
    string_of(&out, 0, out.len())
}

fn version_pieces(plugins: &Vec<crate::models::PluginManifest>) -> (r: Vec<Vec<char>>)
    ensures
        views(r@) == plugin_versions(plugins@),
{
    let mut r: Vec<Vec<char>> = Vec::new();
    let mut i: usize = 0;
    while i < plugins.len()
        invariant
            i <= plugins.len(),
            views(r@) == plugin_versions(plugins@).take(i as int),
        decreases plugins.len() - i,
    {
        let mut piece: Vec<char> = Vec::new();
        push_str(&mut piece, plugins[i].name.as_str());
        piece.push(':');
        push_str(&mut piece, plugins[i].version.as_str());
        assert(piece@ =~= plugin_versions(plugins@)[i as int]);
        assert(plugin_versions(plugins@).take(i + 1) =~= plugin_versions(plugins@).take(
            i as int,
        ).push(piece@));
        let ghost prev = r@;
        r.push(piece);
        proof {
            crate::conf_text::lemma_views_push(prev, piece);
        }
        assert(views(r@) =~= plugin_versions(plugins@).take(i + 1));
        i += 1;
    }
    assert(plugin_versions(plugins@).take(i as int) =~= plugin_versions(plugins@));
    r
}

fn file_name_chars(path: &str) -> (r: Vec<char>)
    ensures
        r@ == file_name_of(path@),
{
    let v = chars_of(path);
    let n = v.len();
    assert(v@.subrange(0, n as int) =~= path@);
    proof {
        crate::text::lemma_find_last(path@, crate::text::eq_char('/'));
    }
    let start = match crate::text::rfind_char_in(&v, 0, n, '/') {
        Some(i) => i + 1,
        None => 0,
    };
    let mut out: Vec<char> = Vec::new();
    push_all(&mut out, &v, start, n);
    assert(out@ =~= file_name_of(path@));
    out
}

fn policy_pieces(policies: &Vec<crate::models::PolicyEntry>, service: &String) -> (r: Vec<Vec<char>>)
    ensures
        views(r@) == policy_files(policies@, service@),
{
    let mut r: Vec<Vec<char>> = Vec::new();
    let mut i: usize = 0;
    assert(policies@.take(0) =~= Seq::<crate::models::PolicyEntry>::empty());
    assert(views(r@) =~= Seq::<Seq<char>>::empty());
    while i < policies.len()
        invariant
            i <= policies.len(),
            views(r@) == policy_files(policies@.take(i as int), service@),
        decreases policies.len() - i,
    {
        let p = &policies[i];
        let ghost upto = policies@.take(i + 1);
        assert(upto.take(i as int) =~= policies@.take(i as int));
        assert(upto[i as int] == *p);
        let target = p.document.spec.target_ref.name.as_str();
        if same_text(target, service.as_str()) || has_prefix_str(target, "orders-route") {
            let piece = file_name_chars(p.source_file.as_str());
            let ghost prev = r@;
            r.push(piece);
            proof {
                crate::conf_text::lemma_views_push(prev, piece);
            }
        }
        assert(views(r@) =~= policy_files(upto, service@));
        i += 1;
    }
    assert(policies@.take(i as int) =~= policies@);
    r
}

fn pair(a: &str, b: String) -> (r: (String, String))
    ensures
        r.0@ == a@,
        r.1 == b,
{
    (owned(a), b)
}

/// The headers every plugin-check answer carries: the request's
/// identifiers, the revision, its plugin chain, the policy profile, the
/// plugin versions and the policy files shown for the service.
pub fn base_headers(r: &CheckRequest, bundle: &RevisionBundle) -> (h: Vec<(String, String)>)
    ensures
        h.deep_view() == base_header_list(*r, *bundle),
{
    let mut h: Vec<(String, String)> = Vec::new();
    h.push(pair("X-Request-Id", r.request_id.clone()));
    h.push(pair("X-Trace-Id", r.trace_id.clone()));
    h.push(pair("X-Tenant-Id", r.tenant_id.clone()));
    h.push(pair("X-Route-Id", r.route_id.clone()));
    h.push(pair("X-Service-Id", r.service_id.clone()));
    h.push(pair("X-Gateway-Revision", bundle.manifest.revision.clone()));
    let chain = strings_chars(&bundle.plugin_chain);
    h.push(pair("X-Gateway-Plugin-Chain", joined(&chain)));
    h.push(pair("X-Gateway-Policy-Profile", owned("default")));
    let versions = version_pieces(&bundle.manifest.plugins);
    h.push(pair("X-Gateway-Plugin-Version", joined(&versions)));
    let files = policy_pieces(&bundle.policies, &r.service_id);
    h.push(pair("X-Gateway-Policy-Files", joined(&files)));
    assert(h.deep_view() =~= base_header_list(*r, *bundle));
    h
}

/// The error body of a denied plugin check.
pub struct CheckError {
    pub code: String,
    pub message: String,
    pub request_id: String,
    pub trace_id: String,
    pub route_id: String,
}

/// The answer to a plugin check: the HTTP status, the headers, and the
/// error for a denial (`None`: the body is `{"status":"ok"}`).
pub struct CheckResponse {
    pub status: u16,
    pub headers: Vec<(String, String)>,
    pub error: Option<CheckError>,
}

/// Counts a plugin check on arrival: one more request, and one more
/// plugin execution per plugin of the chain.
pub fn count_check(metrics: &mut MetricsState, chain_len: usize)
    requires
        old(metrics).gateway_requests_total < u64::MAX,
        old(metrics).gateway_plugin_executions_total + chain_len <= u64::MAX,
    ensures
        *final(metrics) == (MetricsState {
            gateway_requests_total: (old(metrics).gateway_requests_total + 1) as u64,
            gateway_plugin_executions_total: (old(metrics).gateway_plugin_executions_total
                + chain_len) as u64,
            ..*old(metrics)
        }),
{
    metrics.gateway_requests_total = metrics.gateway_requests_total + 1;
    metrics.gateway_plugin_executions_total = metrics.gateway_plugin_executions_total
        + chain_len as u64;
}

/// Adds the time a passed check took to the request duration.
pub fn record_duration(metrics: &mut MetricsState, elapsed_ms: u64)
    requires
        old(metrics).gateway_request_duration_ms + elapsed_ms <= u64::MAX,
    ensures
        *final(metrics) == (MetricsState {
            gateway_request_duration_ms: (old(metrics).gateway_request_duration_ms
                + elapsed_ms) as u64,
            ..*old(metrics)
        }),
{
    metrics.gateway_request_duration_ms = metrics.gateway_request_duration_ms + elapsed_ms;
}

/// A denial answered with `status`: the base headers, then the decision
/// `deny` and its reason `code`, and the error naming the request.
pub open spec fn is_denial(
    resp: CheckResponse,
    r: CheckRequest,
    base: Seq<(Seq<char>, Seq<char>)>,
    status: u16,
    code: Seq<char>,
    message: Seq<char>,
) -> bool {
    &&& resp.status == status
    &&& resp.headers.deep_view() == base + seq![
        ("X-Gateway-Decision"@, "deny"@),
        ("X-Gateway-Decision-Reason"@, code),
    ]
    &&& resp.error matches Some(e) && {
        &&& e.code@ == code
        &&& e.message@ == message
        &&& e.request_id@ == r.request_id@
        &&& e.trace_id@ == r.trace_id@
        &&& e.route_id@ == r.route_id@
    }
}

fn clone_pairs(v: &Vec<(String, String)>) -> (r: Vec<(String, String)>)
    ensures
        r.deep_view() == v.deep_view(),
{
    let mut r: Vec<(String, String)> = Vec::new();
    let mut i: usize = 0;
    while i < v.len()
        invariant
            i <= v.len(),
            r.deep_view() == v.deep_view().take(i as int),
        decreases v.len() - i,
    {
        let ghost prev = r.deep_view();
        r.push((v[i].0.clone(), v[i].1.clone()));
        assert(v.deep_view()[i as int] == (v[i as int].0@, v[i as int].1@));
        assert(r.deep_view() =~= prev.push(v.deep_view()[i as int]));
        assert(r.deep_view() =~= v.deep_view().take(i + 1));
        i += 1;
    }
    assert(v.deep_view().take(i as int) =~= v.deep_view());
    r
}

fn denial(
    r: &CheckRequest,
    base: &Vec<(String, String)>,
    status: u16,
    code: &str,
    message: &str,
) -> (resp: CheckResponse)
    ensures
        is_denial(resp, *r, base.deep_view(), status, code@, message@),
{
    let mut headers = clone_pairs(base);
    headers.push(pair("X-Gateway-Decision", owned("deny")));
    headers.push(pair("X-Gateway-Decision-Reason", owned(code)));
    assert(headers.deep_view() =~= base.deep_view() + seq![
        ("X-Gateway-Decision"@, "deny"@),
        ("X-Gateway-Decision-Reason"@, code@),
    ]);
    CheckResponse {
        status,
        headers,
        error: Some(
            CheckError {
                code: owned(code),
                message: owned(message),
                request_id: r.request_id.clone(),
                trace_id: r.trace_id.clone(),
                route_id: r.route_id.clone(),
            },
        ),
    }
}

/// A check without a tenant is denied with 401 `missing_tenant` and
/// counted as denied by policy; a check with one goes on.
pub fn tenant_gate(r: &CheckRequest, base: &Vec<(String, String)>, metrics: &mut MetricsState) -> (resp:
    Option<CheckResponse>)
    requires
        old(metrics).gateway_policy_denied_total < u64::MAX,
    ensures
        resp is Some <==> r.tenant_id@.len() == 0,
        match resp {
            Some(d) => {
                &&& is_denial(
                    d,
                    *r,
                    base.deep_view(),
                    401,
                    "missing_tenant"@,
                    "tenant header is required"@,
                )
                &&& *final(metrics) == (MetricsState {
                    gateway_policy_denied_total: (old(metrics).gateway_policy_denied_total
                        + 1) as u64,
                    ..*old(metrics)
                })
            },
            None => *final(metrics) == *old(metrics),
        },
{
    if r.tenant_id.as_str().unicode_len() == 0 {
        metrics.gateway_policy_denied_total = metrics.gateway_policy_denied_total + 1;
        Some(denial(r, base, 401, "missing_tenant", "tenant header is required"))
    } else {
        None
    }
}

/// A tenant with a configured key must present exactly that key: a check
/// presenting another is denied with 401 `unauthorized` and counted as
/// denied by policy; otherwise it goes on.
pub fn key_gate(
    r: &CheckRequest,
    expected: Option<String>,
    base: &Vec<(String, String)>,
    metrics: &mut MetricsState,
) -> (resp: Option<CheckResponse>)
    requires
        old(metrics).gateway_policy_denied_total < u64::MAX,
    ensures
        resp is Some <==> (expected matches Some(k) && k@ != r.api_key@),
        match resp {
            Some(d) => {
                &&& is_denial(
                    d,
                    *r,
                    base.deep_view(),
                    401,
                    "unauthorized"@,
                    "missing or invalid api key"@,
                )
                &&& *final(metrics) == (MetricsState {
                    gateway_policy_denied_total: (old(metrics).gateway_policy_denied_total
                        + 1) as u64,
                    ..*old(metrics)
                })
            },
            None => *final(metrics) == *old(metrics),
        },
{
    match expected {
        Some(k) => {
            if !same_text(k.as_str(), r.api_key.as_str()) {
                metrics.gateway_policy_denied_total = metrics.gateway_policy_denied_total + 1;
                Some(denial(r, base, 401, "unauthorized", "missing or invalid api key"))
            } else {
                None
            }
        },
        None => None,
    }
}

/// The headers of a passed check: the base headers, the decision `allow`
/// with reason `policy_passed`, the authenticated tenant and method, and
/// what the rate limit leaves.
pub open spec fn passed_headers(
    r: CheckRequest,
    base: Seq<(Seq<char>, Seq<char>)>,
    remaining: u64,
) -> Seq<(Seq<char>, Seq<char>)> {
    base + seq![
        ("X-Gateway-Decision"@, "allow"@),
        ("X-Gateway-Decision-Reason"@, "policy_passed"@),
        ("X-Auth-Subject"@, r.tenant_id@),
        ("X-Auth-Method"@, "x-api-key"@),
        ("X-Gateway-Limit-Remaining"@, dec_chars(remaining as nat)),
    ]
}

/// The rate limiter's answer decides the rest: a check it does not admit
/// is denied with 429 `rate_limited` and counted as rate limited; an
/// admitted check passes with 200.
pub fn rate_gate(
    r: &CheckRequest,
    decision: &RateLimitDecision,
    base: &Vec<(String, String)>,
    metrics: &mut MetricsState,
) -> (resp: CheckResponse)
    requires
        old(metrics).gateway_rate_limit_denied_total < u64::MAX,
    ensures
        if decision.allowed {
            &&& resp.status == 200
            &&& resp.headers.deep_view() == passed_headers(
                *r,
                base.deep_view(),
                decision.remaining,
            )
            &&& resp.error is None
            &&& *final(metrics) == *old(metrics)
        } else {
            &&& is_denial(
                resp,
                *r,
                base.deep_view(),
                429,
                "rate_limited"@,
                "rate limit exceeded"@,
            )
            &&& *final(metrics) == (MetricsState {
                gateway_rate_limit_denied_total: (old(metrics).gateway_rate_limit_denied_total
                    + 1) as u64,
                ..*old(metrics)
            })
        },
{
    if !decision.allowed {
        metrics.gateway_rate_limit_denied_total = metrics.gateway_rate_limit_denied_total + 1;
        return denial(r, base, 429, "rate_limited", "rate limit exceeded");
    }
    let mut headers = clone_pairs(base);
    headers.push(pair("X-Gateway-Decision", owned("allow")));
    headers.push(pair("X-Gateway-Decision-Reason", owned("policy_passed")));
    headers.push(pair("X-Auth-Subject", r.tenant_id.clone()));
    headers.push(pair("X-Auth-Method", owned("x-api-key")));
    let d = dec_of(decision.remaining);
    assert(d@.subrange(0, d@.len() as int) =~= d@);
    headers.push(pair("X-Gateway-Limit-Remaining", string_of(&d, 0, d.len())));
    assert(headers.deep_view() =~= passed_headers(*r, base.deep_view(), decision.remaining));
    CheckResponse { status: 200, headers, error: None }
}

/// Whether the service of a request can be found: it names one, or the
/// router serving its route has a destination.
pub fn can_resolve_service(headers: &Vec<(String, String)>, bundle: &RevisionBundle) -> (r: bool)
    ensures
        r == check_request_resolvable(headers.deep_view(), *bundle),
{
    if header_value(headers, "X-Service-Id").is_some() {
        return true;
    }
    let route_id = header_or_default(headers, "X-Route-Id", "unknown-route");
    let ghost all = bundle.routers@;
    let mut i: usize = 0;
    assert(all.skip(0) =~= all);
    while i < bundle.routers.len()
        invariant
            i <= bundle.routers.len(),
            all == bundle.routers@,
            route_id@ == request_route(headers.deep_view()),
            header_lookup(headers.deep_view(), "X-Service-Id"@) is None,
            first_serving(all, route_id@) == first_serving(all.skip(i as int), route_id@),
        decreases bundle.routers.len() - i,
    {
        let router = &bundle.routers[i];
        assert(all.skip(i as int)[0] == *router);
        if has_prefix_str(route_id.as_str(), router.metadata.name.as_str()) || has_prefix_str(
            route_id.as_str(),
            "/",
        ) {
            return router.spec.config.destinations.len() > 0;
        }
        assert(all.skip(i as int).drop_first() =~= all.skip(i + 1));
        i += 1;
    }
    assert(all.skip(i as int) =~= Seq::<RouterDocument>::empty());
    true
}

/// The destination a router's traffic goes to: its first destination.
pub fn router_destination(router: &RouterDocument) -> (r: Option<String>)
    ensures
        match r {
            Some(d) => router.spec.config.destinations@.len() > 0 && d@
                == router.spec.config.destinations@[0].destination_ref.name@,
            None => router.spec.config.destinations@.len() == 0,
        },
{
    if router.spec.config.destinations.len() > 0 {
        Some(router.spec.config.destinations[0].destination_ref.name.clone())
    } else {
        None
    }
}

/// The view of an optional string.
pub open spec fn opt_text(o: Option<String>) -> Option<Seq<char>> {
    match o {
        Some(s) => Some(s@),
        None => None,
    }
}

/// A plugin check gets past its gates: it names its tenant, and a tenant
/// with a configured key presents exactly that key.
pub open spec fn passes_gates(tenant: Seq<char>, api_key: Seq<char>, expected: Option<Seq<char>>) -> bool {
    &&& tenant.len() > 0
    &&& match expected {
        Some(k) => k == api_key,
        None => true,
    }
}

/// A check reaches the rate limiter exactly when neither gate denies it:
/// a check that `tenant_gate` or `key_gate` answers spends no quota.
pub proof fn only_passing_checks_spend_quota(
    tenant: Seq<char>,
    api_key: Seq<char>,
    expected: Option<Seq<char>>,
)
    ensures
        passes_gates(tenant, api_key, expected) <==> !(tenant.len() == 0 || (expected matches Some(
            k,
        ) && k != api_key)),
{
}

/// The last step of a plugin check, for a check past both gates: counts
/// it in the bucket of `tenant:service:route` and answers as the rate
/// limiter decides (200 with the quota left, or a 429 counted as rate
/// limited). Only a check past the gates may reach it.
pub fn check_quota(
    r: &CheckRequest,
    expected: &Option<String>,
    config: &RateLimitConfig,
    buckets: &mut RateLimitState,
    now_epoch_seconds: u64,
    base: &Vec<(String, String)>,
    metrics: &mut MetricsState,
) -> (resp: CheckResponse)
    requires
        passes_gates(r.tenant_id@, r.api_key@, opt_text(*expected)),
        old(metrics).gateway_rate_limit_denied_total < u64::MAX,
    ensures
        ({
            let key = route_key(r.tenant_id@, r.service_id@, r.route_id@);
            let rule = effective_rule(
                config.limits.deep_view(),
                config.default.deep_view(),
                r.tenant_id@,
                r.service_id@,
                r.route_id@,
            );
            let old_bucket = bucket_or_new(entry_value(old(buckets).buckets.deep_view(), key));
            let (start, count, allowed) = bucket_after(old_bucket, rule, now_epoch_seconds);
            let remaining = (if count <= rule.0 {
                rule.0 - count
            } else {
                0
            }) as u64;
            &&& entry_value(final(buckets).buckets.deep_view(), key) == Some((start, count))
            &&& forall|k: Seq<char>|
                k != key ==> entry_value(final(buckets).buckets.deep_view(), k) == entry_value(
                    old(buckets).buckets.deep_view(),
                    k,
                )
            &&& if allowed {
                &&& resp.status == 200
                &&& resp.headers.deep_view() == passed_headers(*r, base.deep_view(), remaining)
                &&& resp.error is None
                &&& *final(metrics) == *old(metrics)
            } else {
                &&& is_denial(
                    resp,
                    *r,
                    base.deep_view(),
                    429,
                    "rate_limited"@,
                    "rate limit exceeded"@,
                )
                &&& *final(metrics) == (MetricsState {
                    gateway_rate_limit_denied_total: (old(metrics).gateway_rate_limit_denied_total
                        + 1) as u64,
                    ..*old(metrics)
                })
            }
        }),
{
    let decision = consume_rate_limit(
        config,
        buckets,
        r.tenant_id.as_str(),
        r.service_id.as_str(),
        r.route_id.as_str(),
        now_epoch_seconds,
    );
    rate_gate(r, &decision, base, metrics)
}

} // verus!
