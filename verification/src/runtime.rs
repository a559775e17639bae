//! The admin daemon's revision runtime: how a resource posted to the
//! deploy endpoint is named on disk, how a revision directory is judged
//! before activation, and what loading or deploying a revision does to
//! the daemon's state. The files, the nginx process and the clock are
//! handled around these functions, which take what they produced.

use vstd::prelude::*;
use crate::models::{
    DeployResult, LoadResult, PluginManifest, ReloadStatus, RevisionManifest, RuntimeState,
    ValidationResult, ValidationSnapshot,
};
use crate::nginx::NginxManager;
use crate::numtext::{dec_chars, dec_of};
use crate::text::{chars_of, concat2, concat3, owned, push_all, push_str, same_text, string_of};

verus! {

/// Why a deploy request was not carried out.
pub enum DeployError {
    /// Answered 400: an unparsable body, a missing field or an unknown kind.
    BadRequest(String),
    /// Answered 500: the daemon could not do its part.
    Internal(String),
}

/// The revision runtime, driving one nginx.
pub struct GatewayRuntime {
    pub nginx: NginxManager,
}

/// The resource a deploy request names, and the file it is saved as in
/// the live revision.
pub struct DeployTarget {
    pub kind: String,
    pub name: String,
    pub filename: String,
}

/// What was found about a revision directory once its layout was
/// complete: its manifest's revision and plugins, whether each plugin's
/// module exists, where its configuration was rendered and what `nginx -t`
/// reported if it failed.
pub struct BundleCheck {
    pub revision: String,
    pub plugins: Vec<PluginManifest>,
    pub wasm_present: Vec<bool>,
    pub rendered_conf: String,
    pub nginx_error: Option<String>,
}

/// The outcome of activating nginx: its message, or the failure.
pub open spec fn activation_ok(a: Option<Result<String, String>>) -> bool {
    a matches Some(Ok(_))
}

/// The file a resource of `kind` named `name` is saved as, or the error
/// for a kind the gateway does not know.
pub open spec fn filename_for(kind: Seq<char>, name: Seq<char>) -> Result<Seq<char>, Seq<char>> {
    if kind == "Gateway"@ {
        Ok("gateway.json"@)
    } else if kind == "Listener"@ {
        Ok("listener.json"@)
    } else if kind == "Router"@ {
        Ok("router-"@ + name + ".json"@)
    } else if kind == "Service"@ {
        Ok("service-"@ + name + ".json"@)
    } else if kind == "Policy"@ {
        Ok("policy-"@ + name + ".json"@)
    } else {
        Err("unsupported kind: "@ + kind)
    }
}

/// The file a resource is saved as in the live revision.
pub fn kind_to_filename(kind: &str, name: &str) -> (r: Result<String, String>)
    ensures
        match (r, filename_for(kind@, name@)) {
            (Ok(f), Ok(g)) => f@ == g,
            (Err(e), Err(g)) => e@ == g,
            _ => false,
        },
{
    if same_text(kind, "Gateway") {
        Ok(owned("gateway.json"))
    } else if same_text(kind, "Listener") {
        Ok(owned("listener.json"))
    } else if same_text(kind, "Router") {
        Ok(concat3("router-", name, ".json"))
    } else if same_text(kind, "Service") {
        Ok(concat3("service-", name, ".json"))
    } else if same_text(kind, "Policy") {
        Ok(concat3("policy-", name, ".json"))
    } else {
        Err(concat2("unsupported kind: ", kind))
    }
}

/// What a deploy body gives: the parse error, or its `kind` and
/// `metadata.name` where they are strings.
pub uninterp spec fn deploy_fields_of(body: Seq<u8>) -> Result<
    (Option<Seq<char>>, Option<Seq<char>>),
    Seq<char>,
>;

/// The view of what `read_deploy_fields` returns.
pub open spec fn fields_view(r: Result<(Option<String>, Option<String>), String>) -> Result<
    (Option<Seq<char>>, Option<Seq<char>>),
    Seq<char>,
> {
    match r {
        Ok((k, n)) => Ok(
            (
                match k {
                    Some(k) => Some(k@),
                    None => None,
                },
                match n {
                    Some(n) => Some(n@),
                    None => None,
                },
            ),
        ),
        Err(e) => Err(e@),
    }
}

/// Parses the body with `serde_json::from_slice` into a
/// `serde_json::Value` and reads `kind` and `metadata.name` with
/// `Value::as_str` (`None` where missing or not a string); a parse error
/// is given as its `Display` text. JSON parsing is not described here: the
/// contract only names the result, `deploy_fields_of` of the body's bytes,
/// which the parser computes from those bytes alone.
#[verifier::external_body]
fn read_deploy_fields(body: &[u8]) -> (r: Result<(Option<String>, Option<String>), String>)
    ensures
        fields_view(r) == deploy_fields_of(body@),
{
    match serde_json::from_slice::<serde_json::Value>(body) {
        Ok(raw) => Ok(
            (
                raw["kind"].as_str().map(str::to_string),
                raw["metadata"]["name"].as_str().map(str::to_string),
            ),
        ),
        Err(e) => Err(e.to_string()),
    }
}

/// What a deploy request names, from what its body gave: the kind, the
/// name and the file, or the error answered with 400.
pub open spec fn target_of(fields: Result<(Option<Seq<char>>, Option<Seq<char>>), Seq<char>>) -> Result<
    (Seq<char>, Seq<char>, Seq<char>),
    Seq<char>,
> {
    match fields {
        Err(e) => Err("JSON parse error: "@ + e),
        Ok((None, _)) => Err("missing field: kind"@),
        Ok((Some(_), None)) => Err("missing field: metadata.name"@),
        Ok((Some(kind), Some(name))) => match filename_for(kind, name) {
            Ok(f) => Ok((kind, name, f)),
            Err(e) => Err(e),
        },
    }
}

/// `target_of` as a value: `Ok` holds the target, `Err` is a bad request.
pub open spec fn target_matches(
    r: Result<DeployTarget, DeployError>,
    t: Result<(Seq<char>, Seq<char>, Seq<char>), Seq<char>>,
) -> bool {
    match (r, t) {
        (Ok(d), Ok((k, n, f))) => d.kind@ == k && d.name@ == n && d.filename@ == f,
        (Err(DeployError::BadRequest(e)), Err(m)) => e@ == m,
        _ => false,
    }
}

/// The target of a deploy request, from the `kind` and `metadata.name`
/// its body gave (or the parse error).
pub fn deploy_target(fields: Result<(Option<String>, Option<String>), String>) -> (r: Result<
    DeployTarget,
    DeployError,
>)
    ensures
        target_matches(r, target_of(fields_view(fields))),
{
    match fields {
        Err(e) => Err(DeployError::BadRequest(concat2("JSON parse error: ", e.as_str()))),
        Ok((None, _)) => Err(DeployError::BadRequest(owned("missing field: kind"))),
        Ok((Some(_), None)) => Err(DeployError::BadRequest(owned("missing field: metadata.name"))),
        Ok((Some(kind), Some(name))) => match kind_to_filename(kind.as_str(), name.as_str()) {
            Ok(filename) => Ok(DeployTarget { kind, name, filename }),
            Err(e) => Err(DeployError::BadRequest(e)),
        },
    }
}

/// The target a deploy body names.
pub fn parse_deploy_request(body: &[u8]) -> (r: Result<DeployTarget, DeployError>)
    ensures
        target_matches(r, target_of(deploy_fields_of(body@))),
{
    let fields = read_deploy_fields(body);
    deploy_target(fields)
}

/// The revision id of a live revision created at `epoch_secs`.
pub fn live_revision_id(epoch_secs: u64) -> (r: String)
    ensures
        r@ == "live-"@ + dec_chars(epoch_secs as nat),
{
    let mut out: Vec<char> = Vec::new();
    push_str(&mut out, "live-");
    let d = dec_of(epoch_secs);
    push_all(&mut out, &d, 0, d.len());
    assert(d@.subrange(0, d@.len() as int) =~= d@);
    assert(out@.subrange(0, out@.len() as int) =~= out@);
    string_of(&out, 0, out.len())
}

/// The manifest written when the live revision is first created: created
/// at `epoch_secs`, for the `live` runtime, with no plugin of its own.
pub fn live_manifest(epoch_secs: u64) -> (m: RevisionManifest)
    ensures
        m.revision@ == "live-"@ + dec_chars(epoch_secs as nat),
        m.created_at@ == m.revision@,
        m.runtime_compat@ == "live"@,
        m.plugins@.len() == 0,
{
    let revision = live_revision_id(epoch_secs);
    let created_at = live_revision_id(epoch_secs);
    RevisionManifest { revision, created_at, runtime_compat: owned("live"), plugins: Vec::new() }
}

/// The plugin chain of a newly created live revision.
pub open spec fn default_chain() -> Seq<Seq<char>> {
    seq![
        "tenant-filter"@,
        "auth-filter"@,
        "header-filter"@,
        "rate-limit-filter"@,
        "observe-filter"@,
    ]
}

/// The plugin chain written when the live revision is first created.
pub fn default_plugin_chain() -> (r: Vec<String>)
    ensures
        r.deep_view() == default_chain(),
{
    let mut r: Vec<String> = Vec::new();
    r.push(owned("tenant-filter"));
    r.push(owned("auth-filter"));
    r.push(owned("header-filter"));
    r.push(owned("rate-limit-filter"));
    r.push(owned("observe-filter"));
    assert(r.deep_view() =~= default_chain());
    r
}

/// The directories of the active revision that a newly created live
/// revision inherits: `plugins` and `data`, when a revision is active.
pub fn live_seed_dirs(state: &RuntimeState) -> (r: Vec<String>)
    ensures
        r.deep_view() == if state.current_revision_path is Some {
            seq!["plugins"@, "data"@]
        } else {
            Seq::<Seq<char>>::empty()
        },
{
    let mut r: Vec<String> = Vec::new();
    if state.current_revision_path.is_some() {
        r.push(owned("plugins"));
        r.push(owned("data"));
    }
    assert(r.deep_view() =~= if state.current_revision_path is Some {
        seq!["plugins"@, "data"@]
    } else {
        Seq::<Seq<char>>::empty()
    });
    r
}

/// `p` is a prefix of `s`.
pub open spec fn starts_with(s: Seq<char>, p: Seq<char>) -> bool {
    p.len() <= s.len() && s.take(p.len() as int) == p
}

/// `p` is a suffix of `s`.
pub open spec fn ends_with(s: Seq<char>, p: Seq<char>) -> bool {
    p.len() <= s.len() && s.skip(s.len() - p.len()) == p
}

fn has_prefix(s: &str, p: &str) -> (r: bool)
    ensures
        r == starts_with(s@, p@),
{
    let x = chars_of(s);
    let y = chars_of(p);
    if y.len() > x.len() {
        return false;
    }
    let mut i: usize = 0;
    while i < y.len()
        invariant
            x@ == s@,
            y@ == p@,
            y.len() <= x.len(),
            i <= y.len(),
            forall|j: int| 0 <= j < i ==> x@[j] == y@[j],
        decreases y.len() - i,
    {
        if x[i] != y[i] {
            assert(s@.take(p@.len() as int)[i as int] != p@[i as int]);
            return false;
        }
        i += 1;
    }
    assert(s@.take(p@.len() as int) =~= p@);
    true
}

fn has_suffix(s: &str, p: &str) -> (r: bool)
    ensures
        r == ends_with(s@, p@),
{
    let x = chars_of(s);
    let y = chars_of(p);
    if y.len() > x.len() {
        return false;
    }
    let off = x.len() - y.len();
    let mut i: usize = 0;
    while i < y.len()
        invariant
            x@ == s@,
            y@ == p@,
            y.len() <= x.len(),
            off == x.len() - y.len(),
            i <= y.len(),
            forall|j: int| 0 <= j < i ==> x@[off + j] == y@[j],
        decreases y.len() - i,
    {
        if x[off + i] != y[i] {
            assert(s@.skip(off as int)[i as int] != p@[i as int]);
            return false;
        }
        i += 1;
    }
    assert(s@.skip(off as int) =~= p@);
    true
}

/// A resource file: a name `prefix*.json`.
pub open spec fn is_resource_file(name: Seq<char>, prefix: Seq<char>) -> bool {
    starts_with(name, prefix) && ends_with(name, ".json"@)
}

/// Whether a file name is a resource file with the prefix.
pub fn is_resource_name(name: &str, prefix: &str) -> (r: bool)
    ensures
        r == is_resource_file(name@, prefix@),
{
    has_prefix(name, prefix) && has_suffix(name, ".json")
}

/// Some entry is a resource file with the prefix.
pub open spec fn has_resource(entries: Seq<Seq<char>>, prefix: Seq<char>) -> bool {
    exists|i: int| 0 <= i < entries.len() && is_resource_file(#[trigger] entries[i], prefix)
}

/// Whether the directory holding `entries` has a resource file with the
/// prefix.
pub fn contains_prefixed_file(entries: &Vec<String>, prefix: &str) -> (r: bool)
    ensures
        r == has_resource(entries.deep_view(), prefix@),
{
    let ghost all = entries.deep_view();
    let mut i: usize = 0;
    while i < entries.len()
        invariant
            i <= entries.len(),
            all == entries.deep_view(),
            forall|j: int| 0 <= j < i ==> !is_resource_file(#[trigger] all[j], prefix@),
        decreases entries.len() - i,
    {
        let name = entries[i].as_str();
        assert(all[i as int] == name@);
        if has_prefix(name, prefix) && has_suffix(name, ".json") {
            return true;
        }
        i += 1;
    }
    false
}

fn contains_name(entries: &Vec<String>, name: &str) -> (r: bool)
    ensures
        r == entries.deep_view().contains(name@),
{
    let ghost all = entries.deep_view();
    let mut i: usize = 0;
    while i < entries.len()
        invariant
            i <= entries.len(),
            all == entries.deep_view(),
            forall|j: int| 0 <= j < i ==> all[j] != name@,
        decreases entries.len() - i,
    {
        if same_text(entries[i].as_str(), name) {
            assert(all[i as int] == name@);
            return true;
        }
        i += 1;
    }
    false
}

/// `[message]` when the file is missing from the entries.
pub open spec fn missing_file(entries: Seq<Seq<char>>, file: Seq<char>) -> Seq<Seq<char>> {
    if entries.contains(file) {
        Seq::empty()
    } else {
        seq!["missing required file: "@ + file]
    }
}

/// `[message]` when no resource file has the prefix.
pub open spec fn missing_resource(entries: Seq<Seq<char>>, prefix: Seq<char>, what: Seq<char>) -> Seq<
    Seq<char>,
> {
    if has_resource(entries, prefix) {
        Seq::empty()
    } else {
        seq!["missing "@ + what + " resource"@]
    }
}

/// What is wrong with the layout of a revision directory holding
/// `entries`: each missing required file, then a missing router, then a
/// missing service.
pub open spec fn layout_problems(entries: Seq<Seq<char>>) -> Seq<Seq<char>> {
    missing_file(entries, "revision.json"@) + missing_file(entries, "gateway.json"@)
        + missing_file(entries, "listener.json"@) + missing_file(entries, "plugin-chain.json"@)
        + missing_resource(entries, "router-"@, "router"@) + missing_resource(
        entries,
        "service-"@,
        "service"@,
    )
}

fn push_missing_file(errors: &mut Vec<String>, entries: &Vec<String>, file: &str)
    ensures
        final(errors).deep_view() == old(errors).deep_view() + missing_file(
            entries.deep_view(),
            file@,
        ),
{
    if !contains_name(entries, file) {
        errors.push(concat2("missing required file: ", file));
    }
    assert(errors.deep_view() =~= old(errors).deep_view() + missing_file(
        entries.deep_view(),
        file@,
    ));
}

fn push_missing_resource(errors: &mut Vec<String>, entries: &Vec<String>, prefix: &str, what: &str)
    ensures
        final(errors).deep_view() == old(errors).deep_view() + missing_resource(
            entries.deep_view(),
            prefix@,
            what@,
        ),
{
    if !contains_prefixed_file(entries, prefix) {
        errors.push(concat3("missing ", what, " resource"));
    }
    assert(errors.deep_view() =~= old(errors).deep_view() + missing_resource(
        entries.deep_view(),
        prefix@,
        what@,
    ));
}

/// What is wrong with the layout of a revision directory, from the names
/// of its entries.
pub fn layout_errors(entries: &Vec<String>) -> (r: Vec<String>)
    ensures
        r.deep_view() == layout_problems(entries.deep_view()),
{
    let mut errors: Vec<String> = Vec::new();
    assert(errors.deep_view() =~= Seq::<Seq<char>>::empty());
    push_missing_file(&mut errors, entries, "revision.json");
    push_missing_file(&mut errors, entries, "gateway.json");
    push_missing_file(&mut errors, entries, "listener.json");
    push_missing_file(&mut errors, entries, "plugin-chain.json");
    push_missing_resource(&mut errors, entries, "router-", "router");
    push_missing_resource(&mut errors, entries, "service-", "service");
    assert(errors.deep_view() =~= layout_problems(entries.deep_view()));
    errors
}


/// `"missing wasm module: <path>"` for each plugin, in order, whose
/// module is not present.
pub open spec fn wasm_missing(plugins: Seq<PluginManifest>, present: Seq<bool>) -> Seq<Seq<char>>
    decreases plugins.len(),
{
    if plugins.len() == 0 {
        Seq::empty()
    } else {
        let n = plugins.len() - 1;
        wasm_missing(plugins.take(n), present) + if present[n] {
            Seq::empty()
        } else {
            seq!["missing wasm module: "@ + plugins[n].wasm_path@]
        }
    }
}

/// `"plugin <name> uses pre-1.0 version <version>"` for each plugin, in
/// order, whose version starts with `0.`.
pub open spec fn pre_release_warnings(plugins: Seq<PluginManifest>) -> Seq<Seq<char>>
    decreases plugins.len(),
{
    if plugins.len() == 0 {
        Seq::empty()
    } else {
        let n = plugins.len() - 1;
        let p = plugins[n];
        pre_release_warnings(plugins.take(n)) + if starts_with(p.version@, "0."@) {
            seq!["plugin "@ + p.name@ + " uses pre-1.0 version "@ + p.version@]
        } else {
            Seq::empty()
        }
    }
}

/// The errors and warnings about the plugins of a manifest, given which
/// of their modules are present.
pub fn plugin_findings(plugins: &Vec<PluginManifest>, wasm_present: &Vec<bool>) -> (r: (
    Vec<String>,
    Vec<String>,
))
    requires
        wasm_present.len() == plugins.len(),
    ensures
        r.0.deep_view() == wasm_missing(plugins@, wasm_present@),
        r.1.deep_view() == pre_release_warnings(plugins@),
{
    let mut errors: Vec<String> = Vec::new();
    let mut warnings: Vec<String> = Vec::new();
    let mut i: usize = 0;
    assert(plugins@.take(0) =~= Seq::<PluginManifest>::empty());
    assert(errors.deep_view() =~= Seq::<Seq<char>>::empty());
    assert(warnings.deep_view() =~= Seq::<Seq<char>>::empty());
    while i < plugins.len()
        invariant
            i <= plugins.len(),
            wasm_present.len() == plugins.len(),
            errors.deep_view() == wasm_missing(plugins@.take(i as int), wasm_present@),
            warnings.deep_view() == pre_release_warnings(plugins@.take(i as int)),
        decreases plugins.len() - i,
    {
        let plugin = &plugins[i];
        let ghost before_e = errors.deep_view();
        let ghost before_w = warnings.deep_view();
        let ghost upto = plugins@.take(i + 1);
        assert(upto.take(i as int) =~= plugins@.take(i as int));
        assert(upto[i as int] == plugins@[i as int]);
        if !wasm_present[i] {
            errors.push(concat2("missing wasm module: ", plugin.wasm_path.as_str()));
        }
        assert(errors.deep_view() =~= wasm_missing(upto, wasm_present@));
        if has_prefix(plugin.version.as_str(), "0.") {
            let mut out: Vec<char> = Vec::new();
            push_str(&mut out, "plugin ");
            push_str(&mut out, plugin.name.as_str());
            push_str(&mut out, " uses pre-1.0 version ");
            push_str(&mut out, plugin.version.as_str());
            assert(out@.subrange(0, out@.len() as int) =~= out@);
            warnings.push(string_of(&out, 0, out.len()));
        }
        assert(warnings.deep_view() =~= pre_release_warnings(upto));
        i += 1;
    }
    assert(plugins@.take(i as int) =~= plugins@);
    (errors, warnings)
}

/// The name a revision directory is reported under.
pub open spec fn revision_label(dir_name: Option<&str>) -> Seq<char> {
    match dir_name {
        Some(n) => n@,
        None => "unknown"@,
    }
}

/// The verdict on a revision directory. The layout is judged first, from
/// the names of the directory's entries; when it is incomplete, the
/// verdict names the directory and lists the problems. When it is
/// complete, the verdict needs what was found about the loaded bundle
/// (`None` without it): its revision, the errors about plugin modules and
/// from `nginx -t`, the warnings about pre-release plugins, and where the
/// configuration was rendered. A revision is valid when nothing is wrong.
pub fn validate_bundle(
    dir_name: Option<&str>,
    entries: &Vec<String>,
    check: Option<&BundleCheck>,
) -> (r: Option<ValidationResult>)
    requires
        check matches Some(c) ==> c.wasm_present.len() == c.plugins.len(),
    ensures
        layout_problems(entries.deep_view()).len() > 0 ==> (r matches Some(v) && {
            &&& v.revision@ == revision_label(dir_name)
            &&& !v.valid
            &&& v.rendered_conf is None
            &&& v.errors.deep_view() == layout_problems(entries.deep_view())
            &&& v.warnings@.len() == 0
        }),
        layout_problems(entries.deep_view()).len() == 0 ==> match check {
            None => r is None,
            Some(c) => (r matches Some(v) && {
                let errors = wasm_missing(c.plugins@, c.wasm_present@) + match c.nginx_error {
                    Some(e) => seq![e@],
                    None => Seq::empty(),
                };
                &&& v.revision@ == c.revision@
                &&& v.rendered_conf matches Some(p) && p@ == c.rendered_conf@
                &&& v.errors.deep_view() == errors
                &&& v.warnings.deep_view() == pre_release_warnings(c.plugins@)
                &&& v.valid == (errors.len() == 0)
            }),
        },
{
    let errors = layout_errors(entries);
    if errors.len() > 0 {
        let revision = match dir_name {
            Some(n) => owned(n),
            None => owned("unknown"),
        };
        return Some(
            ValidationResult {
                revision,
                valid: false,
                rendered_conf: None,
                errors,
                warnings: Vec::new(),
            },
        );
    }
    match check {
        None => None,
        Some(c) => {
            let (mut errors, warnings) = plugin_findings(&c.plugins, &c.wasm_present);
            let ghost before = errors.deep_view();
            match &c.nginx_error {
                Some(e) => {
                    errors.push(e.clone());
                },
                None => {},
            }
            assert(errors.deep_view() =~= before + match c.nginx_error {
                Some(e) => seq![e@],
                None => Seq::empty(),
            });
            let valid = errors.len() == 0;
            Some(
                ValidationResult {
                    revision: c.revision.clone(),
                    valid,
                    rendered_conf: Some(c.rendered_conf.clone()),
                    errors,
                    warnings,
                },
            )
        },
    }
}

fn clone_strings(v: &Vec<String>) -> (r: Vec<String>)
    ensures
        r@ == v@,
{
    let mut r: Vec<String> = Vec::new();
    let mut i: usize = 0;
    while i < v.len()
        invariant
            i <= v.len(),
            r@ == v@.take(i as int),
        decreases v.len() - i,
    {
        r.push(v[i].clone());
        i += 1;
        assert(r@ =~= v@.take(i as int));
    }
    assert(v@.take(i as int) =~= v@);
    r
}

/// The snapshot kept of a verdict.
pub open spec fn snapshot_of(s: ValidationSnapshot, v: ValidationResult) -> bool {
    &&& s.revision@ == v.revision@
    &&& s.valid == v.valid
    &&& s.errors@ == v.errors@
    &&& s.warnings@ == v.warnings@
}

fn snapshot(v: &ValidationResult) -> (s: ValidationSnapshot)
    ensures
        snapshot_of(s, *v),
{
    ValidationSnapshot {
        revision: v.revision.clone(),
        valid: v.valid,
        errors: clone_strings(&v.errors),
        warnings: clone_strings(&v.warnings),
    }
}

/// The counters after an activation was attempted: one more reload, and
/// one more failed reload when it failed.
pub open spec fn counted_activation(m: crate::models::MetricsState, failed: bool) -> crate::models::MetricsState {
    crate::models::MetricsState {
        gateway_reload_total: (m.gateway_reload_total + 1) as u64,
        gateway_reload_failures_total: if failed {
            (m.gateway_reload_failures_total + 1) as u64
        } else {
            m.gateway_reload_failures_total
        },
        ..m
    }
}

/// How applying a verdict ended.
pub enum Activation {
    /// The revision is not valid; nothing was activated.
    Invalid,
    /// nginx took the configuration, with this message.
    Activated(String),
    /// nginx refused it, with this message.
    Refused(String),
}

/// The state after a verdict on the revision at `revision_path` was
/// applied: the verdict is remembered; a valid revision was activated
/// (`activation`), counted as a reload, and on success became the current
/// revision, on failure counted as a failed reload. A valid verdict
/// without a rendered configuration is an error.
pub open spec fn applied(
    old_state: RuntimeState,
    new_state: RuntimeState,
    validation: ValidationResult,
    revision_path: Seq<char>,
    activation: Option<Result<String, String>>,
    r: Result<Activation, String>,
) -> bool {
    &&& new_state.last_validation matches Some(s) && snapshot_of(s, validation)
    &&& if !validation.valid {
        &&& r matches Ok(Activation::Invalid)
        &&& new_state.metrics == old_state.metrics
        &&& new_state.current_revision == old_state.current_revision
        &&& new_state.current_revision_path == old_state.current_revision_path
        &&& new_state.last_reload_status == old_state.last_reload_status
    } else if validation.rendered_conf is None {
        &&& r matches Err(e) && e@ == "missing rendered conf"@
        &&& new_state.metrics == old_state.metrics
        &&& new_state.current_revision == old_state.current_revision
        &&& new_state.current_revision_path == old_state.current_revision_path
        &&& new_state.last_reload_status == old_state.last_reload_status
    } else {
        match activation {
            Some(Ok(message)) => {
                &&& r matches Ok(Activation::Activated(m)) && m@ == message@
                &&& new_state.metrics == counted_activation(old_state.metrics, false)
                &&& new_state.current_revision matches Some(c) && c@ == validation.revision@
                &&& new_state.current_revision_path matches Some(p) && p@ == revision_path
                &&& new_state.last_reload_status matches Some(st) && st.success && st.message@
                    == message@
            },
            Some(Err(error)) => {
                &&& r matches Ok(Activation::Refused(m)) && m@ == error@
                &&& new_state.metrics == counted_activation(old_state.metrics, true)
                &&& new_state.current_revision == old_state.current_revision
                &&& new_state.current_revision_path == old_state.current_revision_path
                &&& new_state.last_reload_status matches Some(st) && !st.success
                    && st.message@ == error@
            },
            None => false,
        }
    }
}

/// The counters can take one more reload and one more failure.
pub open spec fn can_count(state: RuntimeState) -> bool {
    state.metrics.gateway_reload_total < u64::MAX && state.metrics.gateway_reload_failures_total
        < u64::MAX
}

/// An activation is owed exactly when the verdict is valid and names a
/// rendered configuration.
pub open spec fn activation_given(
    validation: ValidationResult,
    activation: Option<Result<String, String>>,
) -> bool {
    (validation.valid && validation.rendered_conf is Some) ==> activation is Some
}

fn apply_validation(
    state: &mut RuntimeState,
    validation: &ValidationResult,
    revision_path: &str,
    activation: Option<Result<String, String>>,
) -> (r: Result<Activation, String>)
    requires
        can_count(*old(state)),
        activation_given(*validation, activation),
    ensures
        applied(*old(state), *final(state), *validation, revision_path@, activation, r),
{
    state.last_validation = Some(snapshot(validation));
    if !validation.valid {
        return Ok(Activation::Invalid);
    }
    if validation.rendered_conf.is_none() {
        return Err(owned("missing rendered conf"));
    }
    state.metrics.gateway_reload_total = state.metrics.gateway_reload_total + 1;
    match activation {
        Some(Ok(message)) => {
            state.current_revision = Some(validation.revision.clone());
            state.current_revision_path = Some(owned(revision_path));
            state.last_reload_status = Some(ReloadStatus { success: true, message: message.clone() });
            Ok(Activation::Activated(message))
        },
        Some(Err(error)) => {
            state.metrics.gateway_reload_failures_total = state.metrics.gateway_reload_failures_total
                + 1;
            state.last_reload_status = Some(ReloadStatus { success: false, message: error.clone() });
            Ok(Activation::Refused(error))
        },
        None => Err(owned("missing rendered conf")),
    }
}

/// Applying a verdict never lowers a counter, and keeps the failed
/// reloads within the reloads.
pub proof fn applying_keeps_counters(
    old_state: RuntimeState,
    new_state: RuntimeState,
    validation: ValidationResult,
    revision_path: Seq<char>,
    activation: Option<Result<String, String>>,
    r: Result<Activation, String>,
)
    requires
        can_count(old_state),
        applied(old_state, new_state, validation, revision_path, activation, r),
    ensures
        new_state.metrics.gateway_reload_total >= old_state.metrics.gateway_reload_total,
        new_state.metrics.gateway_reload_failures_total
            >= old_state.metrics.gateway_reload_failures_total,
        new_state.metrics.gateway_requests_total == old_state.metrics.gateway_requests_total,
        new_state.metrics.gateway_rate_limit_denied_total
            == old_state.metrics.gateway_rate_limit_denied_total,
        old_state.metrics.gateway_reload_failures_total
            <= old_state.metrics.gateway_reload_total
            ==> new_state.metrics.gateway_reload_failures_total
            <= new_state.metrics.gateway_reload_total,
{
}

/// The current revision changes only when a valid revision was activated,
/// and then it is that revision.
pub proof fn current_revision_moves_only_on_activation(
    old_state: RuntimeState,
    new_state: RuntimeState,
    validation: ValidationResult,
    revision_path: Seq<char>,
    activation: Option<Result<String, String>>,
    r: Result<Activation, String>,
)
    requires
        applied(old_state, new_state, validation, revision_path, activation, r),
    ensures
        new_state.current_revision != old_state.current_revision ==> {
            &&& validation.valid
            &&& activation_ok(activation)
            &&& new_state.current_revision matches Some(c) && c@ == validation.revision@
        },
        !validation.valid ==> new_state.current_revision == old_state.current_revision
            && new_state.metrics == old_state.metrics,
{
}

impl GatewayRuntime {
    /// A runtime driving `nginx`.
    pub fn new(nginx: NginxManager) -> (r: Self)
        ensures
            r.nginx == nginx,
    {
        GatewayRuntime { nginx }
    }

    /// Loads the revision at `revision_path` given the verdict on it and,
    /// for a valid verdict with a rendered configuration, how activating
    /// nginx with that configuration went. The state changes as `applied`
    /// says; the answer is `validation_failed`, `loaded` or
    /// `reload_failed`.
    pub fn load_revision(
        &self,
        state: &mut RuntimeState,
        revision_path: &str,
        validation: ValidationResult,
        activation: Option<Result<String, String>>,
    ) -> (r: Result<LoadResult, String>)
        requires
            can_count(*old(state)),
            activation_given(validation, activation),
        ensures
            exists|a: Result<Activation, String>|
                applied(*old(state), *final(state), validation, revision_path@, activation, a),
            validation.valid && validation.rendered_conf is None ==> r is Err,
            match r {
                Err(e) => e@ == "missing rendered conf"@ && validation.valid
                    && validation.rendered_conf is None,
                Ok(l) => {
                    &&& l.revision matches Some(rev) && rev@ == validation.revision@
                    &&& l.validation == Some(validation)
                    &&& if !validation.valid {
                        l.status@ == "validation_failed"@ && l.message@
                            == "revision did not pass validation"@
                    } else {
                        match activation {
                            Some(Ok(m)) => l.status@ == "loaded"@ && l.message@ == m@,
                            Some(Err(e)) => l.status@ == "reload_failed"@ && l.message@ == e@,
                            None => false,
                        }
                    }
                },
            },
    {
        let outcome = apply_validation(state, &validation, revision_path, activation);
        let revision = Some(validation.revision.clone());
        match outcome {
            Err(e) => Err(e),
            Ok(Activation::Invalid) => Ok(
                LoadResult {
                    revision,
                    status: owned("validation_failed"),
                    message: owned("revision did not pass validation"),
                    validation: Some(validation),
                },
            ),
            Ok(Activation::Activated(message)) => Ok(
                LoadResult {
                    revision,
                    status: owned("loaded"),
                    message,
                    validation: Some(validation),
                },
            ),
            Ok(Activation::Refused(message)) => Ok(
                LoadResult {
                    revision,
                    status: owned("reload_failed"),
                    message,
                    validation: Some(validation),
                },
            ),
        }
    }

    /// Finishes a deploy of `target` once it was saved in the live
    /// revision at `live_path`, given the verdict on that revision and, for
    /// a valid verdict with a rendered configuration, how activating nginx
    /// went. The state changes as `applied` says; the answer is `staged`
    /// while the revision is incomplete, else `applied` or `failed`.
    pub fn deploy_resource(
        &self,
        state: &mut RuntimeState,
        target: DeployTarget,
        live_path: &str,
        validation: ValidationResult,
        activation: Option<Result<String, String>>,
    ) -> (r: Result<DeployResult, DeployError>)
        requires
            can_count(*old(state)),
            activation_given(validation, activation),
        ensures
            exists|a: Result<Activation, String>|
                applied(*old(state), *final(state), validation, live_path@, activation, a),
            validation.valid && validation.rendered_conf is None ==> r is Err,
            match r {
                Err(DeployError::Internal(e)) => e@ == "missing rendered conf"@ && validation.valid
                    && validation.rendered_conf is None,
                Err(DeployError::BadRequest(_)) => false,
                Ok(d) => {
                    &&& d.kind == target.kind
                    &&& d.name == target.name
                    &&& d.validation == Some(validation)
                    &&& if !validation.valid {
                        d.status@ == "staged"@ && d.message@
                            == "resource saved; bundle not yet complete"@
                    } else {
                        match activation {
                            Some(Ok(m)) => d.status@ == "applied"@ && d.message@ == m@,
                            Some(Err(e)) => d.status@ == "failed"@ && d.message@ == e@,
                            None => false,
                        }
                    }
                },
            },
    {
        let outcome = apply_validation(state, &validation, live_path, activation);
        let DeployTarget { kind, name, filename: _ } = target;
        match outcome {
            Err(e) => Err(DeployError::Internal(e)),
            Ok(Activation::Invalid) => Ok(
                DeployResult {
                    kind,
                    name,
                    status: owned("staged"),
                    message: owned("resource saved; bundle not yet complete"),
                    validation: Some(validation),
                },
            ),
            Ok(Activation::Activated(message)) => Ok(
                DeployResult {
                    kind,
                    name,
                    status: owned("applied"),
                    message,
                    validation: Some(validation),
                },
            ),
            Ok(Activation::Refused(message)) => Ok(
                DeployResult {
                    kind,
                    name,
                    status: owned("failed"),
                    message,
                    validation: Some(validation),
                },
            ),
        }
    }
}

} // verus!
