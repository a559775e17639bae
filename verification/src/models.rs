//! The resources of a revision bundle (Gateway, Listener, Router, Service,
//! Policy, the manifest and the plugin chain), the runtime state the
//! daemon persists, and the results it reports.
//!
//! These are plain data. Reading them from JSON, and writing the state
//! and results back, happens at the edge of the daemon.

use vstd::prelude::*;

verus! {

pub struct Metadata {
    pub name: String,
}

pub struct GatewayDocument {
    pub metadata: Metadata,
    pub spec: GatewaySpec,
}

pub struct GatewaySpec {
    pub logging: GatewayLogging,
    pub tracing: GatewayTracing,
    pub metrics: GatewayMetrics,
    pub server: GatewayServer,
}

pub struct GatewayLogging {
    pub access_log: GatewayAccessLog,
}

pub struct GatewayAccessLog {
    pub enabled: bool,
}

pub struct GatewayTracing {
    pub enabled: bool,
}

pub struct GatewayMetrics {
    pub enabled: bool,
    pub path: String,
    pub port: u16,
}

/// Process-level nginx settings of a gateway.
pub struct GatewayServer {
    pub worker_processes: String,
    pub worker_connections: u32,
    pub keepalive_connections: u32,
}

pub struct ListenerDocument {
    pub metadata: Metadata,
    pub spec: ListenerSpec,
}

pub struct ListenerSpec {
    pub protocol: String,
    pub port: u16,
    pub host: String,
    pub allowed_hostnames: Vec<String>,
}

/// How a router's paths match request URIs.
pub enum PathMatchType {
    Exact,
    Prefix,
    Regex,
}

pub struct RouterDocument {
    pub metadata: Metadata,
    pub spec: RouterSpec,
}

pub struct RouterSpec {
    pub priority: u16,
    pub match_type: PathMatchType,
    pub target_ref: TargetRef,
    pub rules: Vec<RouterRule>,
    pub config: RouterConfig,
}

pub struct TargetRef {
    pub kind: String,
    pub name: String,
}

pub struct RouterRule {
    pub path: String,
    pub methods: Vec<String>,
}

pub struct RouterConfig {
    pub destinations: Vec<DestinationConfig>,
}

pub struct DestinationConfig {
    pub destination_ref: TargetRef,
    pub weight: u16,
}

pub struct ServiceDocument {
    pub metadata: Metadata,
    pub spec: ServiceSpec,
}

pub struct ServiceSpec {
    pub protocol: String,
    pub load_balancing: LoadBalancing,
}

pub struct LoadBalancing {
    pub targets: Vec<UpstreamTarget>,
}

pub struct UpstreamTarget {
    pub host: String,
    pub port: u16,
    pub weight: u16,
}

/// A policy resource. Its free-form configuration object is not read by
/// the gateway's logic and stays with the JSON layer.
pub struct PolicyDocument {
    pub metadata: Metadata,
    pub spec: PolicySpec,
}

pub struct PolicySpec {
    pub target_ref: TargetRef,
    pub order: u16,
}

pub struct RevisionManifest {
    pub revision: String,
    pub created_at: String,
    pub runtime_compat: String,
    pub plugins: Vec<PluginManifest>,
}

pub struct PluginManifest {
    pub name: String,
    pub version: String,
    pub wasm_path: String,
    pub sha256: String,
    pub failure_mode: String,
    pub hooks: Vec<String>,
}

pub struct PluginChainDocument {
    pub plugins: Vec<String>,
}

/// A loaded revision bundle. Services are kept in file order with at most
/// one service per name (a later file with the same name replaces the
/// earlier one); policies are ordered by `order`.
pub struct RevisionBundle {
    pub root: String,
    pub manifest: RevisionManifest,
    pub gateway: GatewayDocument,
    pub listener: ListenerDocument,
    pub routers: Vec<RouterDocument>,
    pub services: Vec<ServiceDocument>,
    pub policies: Vec<PolicyEntry>,
    pub plugin_chain: Vec<String>,
}

pub struct PolicyEntry {
    pub document: PolicyDocument,
    pub source_file: String,
}

pub struct RuntimeState {
    pub current_revision: Option<String>,
    pub current_revision_path: Option<String>,
    pub last_validation: Option<ValidationSnapshot>,
    pub last_reload_status: Option<ReloadStatus>,
    pub metrics: MetricsState,
}

pub struct ValidationSnapshot {
    pub revision: String,
    pub valid: bool,
    pub errors: Vec<String>,
    pub warnings: Vec<String>,
}

pub struct ReloadStatus {
    pub success: bool,
    pub message: String,
}

pub struct MetricsState {
    pub gateway_reload_total: u64,
    pub gateway_reload_failures_total: u64,
    pub gateway_requests_total: u64,
    pub gateway_request_duration_ms: u64,
    pub gateway_plugin_executions_total: u64,
    pub gateway_plugin_failures_total: u64,
    pub gateway_policy_denied_total: u64,
    pub gateway_rate_limit_denied_total: u64,
}

pub struct ValidationResult {
    pub revision: String,
    pub valid: bool,
    pub rendered_conf: Option<String>,
    pub errors: Vec<String>,
    pub warnings: Vec<String>,
}

pub struct LoadResult {
    pub revision: Option<String>,
    pub status: String,
    pub message: String,
    pub validation: Option<ValidationResult>,
}

pub struct DeployResult {
    pub kind: String,
    pub name: String,
    /// `applied`, `staged` or `failed`.
    pub status: String,
    pub message: String,
    pub validation: Option<ValidationResult>,
}

/// Access logging and metrics are on unless configured off.
pub fn default_true() -> (b: bool)
    ensures
        b,
{
    true
}

/// Weight of a destination or upstream target when none is given.
pub fn default_weight() -> (w: u16)
    ensures
        w == 100,
{
    100
}

/// Address a listener binds when none is given.
pub fn default_host() -> (h: String)
    ensures
        h@ == "0.0.0.0"@,
{
    String::from_str("0.0.0.0")
}

/// Protocol of a service when none is given.
pub fn default_protocol() -> (p: String)
    ensures
        p@ == "HTTP"@,
{
    String::from_str("HTTP")
}

/// Failure mode of a plugin when none is given.
pub fn default_failure_mode() -> (m: String)
    ensures
        m@ == "fail-open"@,
{
    String::from_str("fail-open")
}

/// Order of a policy when none is given.
pub fn default_policy_order() -> (o: u16)
    ensures
        o == 100,
{
    100
}

/// Path of the metrics location when none is given.
pub fn default_metrics_path() -> (p: String)
    ensures
        p@ == "/metrics"@,
{
    String::from_str("/metrics")
}

/// Port of the metrics endpoint when none is given.
pub fn default_metrics_port() -> (p: u16)
    ensures
        p == 19090,
{
    19090
}

/// `worker_processes` when none is given.
pub fn default_worker_processes() -> (w: String)
    ensures
        w@ == "auto"@,
{
    String::from_str("auto")
}

/// `worker_connections` when none is given.
pub fn default_worker_connections() -> (c: u32)
    ensures
        c == 1024,
{
    1024
}

/// Idle upstream connections kept per worker when none is given.
pub fn default_keepalive_connections() -> (c: u32)
    ensures
        c == 32,
{
    32
}

/// How routers match when the resource says nothing.
pub fn default_match_type() -> (m: PathMatchType)
    ensures
        m is Regex,
{
    PathMatchType::Regex
}

impl Default for GatewayAccessLog {
    fn default() -> (r: Self)
        ensures
            r.enabled,
    {
        GatewayAccessLog { enabled: default_true() }
    }
}

impl Default for GatewayTracing {
    fn default() -> (r: Self)
        ensures
            !r.enabled,
    {
        GatewayTracing { enabled: false }
    }
}

impl Default for GatewayLogging {
    fn default() -> (r: Self)
        ensures
            r.access_log.enabled,
    {
        GatewayLogging { access_log: GatewayAccessLog::default() }
    }
}

impl Default for GatewayMetrics {
    fn default() -> (r: Self)
        ensures
            r.enabled,
            r.path@ == "/metrics"@,
            r.port == 19090,
    {
        GatewayMetrics {
            enabled: default_true(),
            path: default_metrics_path(),
            port: default_metrics_port(),
        }
    }
}

impl Default for GatewayServer {
    fn default() -> (r: Self)
        ensures
            r.worker_processes@ == "auto"@,
            r.worker_connections == 1024,
            r.keepalive_connections == 32,
    {
        GatewayServer {
            worker_processes: default_worker_processes(),
            worker_connections: default_worker_connections(),
            keepalive_connections: default_keepalive_connections(),
        }
    }
}

impl Default for GatewaySpec {
    fn default() -> (r: Self)
        ensures
            r.logging.access_log.enabled,
            !r.tracing.enabled,
            r.metrics.enabled,
            r.metrics.path@ == "/metrics"@,
            r.metrics.port == 19090,
            r.server.worker_processes@ == "auto"@,
            r.server.worker_connections == 1024,
            r.server.keepalive_connections == 32,
    {
        GatewaySpec {
            logging: GatewayLogging::default(),
            tracing: GatewayTracing::default(),
            metrics: GatewayMetrics::default(),
            server: GatewayServer::default(),
        }
    }
}

impl MetricsState {
    /// All counters at zero.
    pub open spec fn is_zero(&self) -> bool {
        &&& self.gateway_reload_total == 0
        &&& self.gateway_reload_failures_total == 0
        &&& self.gateway_requests_total == 0
        &&& self.gateway_request_duration_ms == 0
        &&& self.gateway_plugin_executions_total == 0
        &&& self.gateway_plugin_failures_total == 0
        &&& self.gateway_policy_denied_total == 0
        &&& self.gateway_rate_limit_denied_total == 0
    }
}

impl Default for MetricsState {
    fn default() -> (r: Self)
        ensures
            r.is_zero(),
    {
        MetricsState {
            gateway_reload_total: 0,
            gateway_reload_failures_total: 0,
            gateway_requests_total: 0,
            gateway_request_duration_ms: 0,
            gateway_plugin_executions_total: 0,
            gateway_plugin_failures_total: 0,
            gateway_policy_denied_total: 0,
            gateway_rate_limit_denied_total: 0,
        }
    }
}

impl Default for RuntimeState {
    /// The state of a daemon that has never loaded a revision.
    fn default() -> (r: Self)
        ensures
            r.current_revision is None,
            r.current_revision_path is None,
            r.last_validation is None,
            r.last_reload_status is None,
            r.metrics.is_zero(),
    {
        RuntimeState {
            current_revision: None,
            current_revision_path: None,
            last_validation: None,
            last_reload_status: None,
            metrics: MetricsState::default(),
        }
    }
}

} // verus!
