//! Where the gateway daemon keeps its files, relative to the gateway root
//! (the `GATEWAY_ROOT` directory, or the parent of the directory holding
//! the executable). The root itself is resolved at the edge of the daemon.

use vstd::prelude::*;
use crate::text::{path_join, join_path};

verus! {

/// Toolchain and nginx installs.
pub fn local_dir(root: &str) -> (p: String)
    ensures
        p@ == path_join(root@, "env/local"@),
{
    join_path(root, "env/local")
}

/// PID files and process logs.
pub fn run_dir(root: &str) -> (p: String)
    ensures
        p@ == path_join(root@, "runtime/process"@),
{
    join_path(root, "runtime/process")
}

/// Sample revisions.
pub fn fixtures_dir(root: &str) -> (p: String)
    ensures
        p@ == path_join(root@, "fixtures"@),
{
    join_path(root, "fixtures")
}

/// The data plane's working directory.
pub fn runtime_dir(root: &str) -> (p: String)
    ensures
        p@ == path_join(root@, "runtime/dataplane"@),
{
    join_path(root, "runtime/dataplane")
}

/// Resources pushed one by one through the deploy endpoint.
pub fn live_dir(root: &str) -> (p: String)
    ensures
        p@ == path_join(path_join(root@, "runtime/dataplane"@), "live"@),
{
    let base = runtime_dir(root);
    join_path(base.as_str(), "live")
}

/// The nginx prefix directory.
pub fn nginx_runtime_dir(root: &str) -> (p: String)
    ensures
        p@ == path_join(path_join(root@, "runtime/dataplane"@), "nginx"@),
{
    let base = runtime_dir(root);
    join_path(base.as_str(), "nginx")
}

/// The active nginx configuration.
pub fn nginx_conf_dir(root: &str) -> (p: String)
    ensures
        p@ == path_join(path_join(path_join(root@, "runtime/dataplane"@), "nginx"@), "conf"@),
{
    let base = nginx_runtime_dir(root);
    join_path(base.as_str(), "conf")
}

/// Configurations rendered per revision.
pub fn generated_dir(root: &str) -> (p: String)
    ensures
        p@ == path_join(path_join(path_join(root@, "runtime/dataplane"@), "nginx"@), "generated"@),
{
    let base = nginx_runtime_dir(root);
    join_path(base.as_str(), "generated")
}

/// Access, error and bootstrap logs.
pub fn log_dir(root: &str) -> (p: String)
    ensures
        p@ == path_join(path_join(root@, "runtime/dataplane"@), "logs"@),
{
    let base = runtime_dir(root);
    join_path(base.as_str(), "logs")
}

/// The persisted runtime state.
pub fn state_file(root: &str) -> (p: String)
    ensures
        p@ == path_join(path_join(root@, "runtime/dataplane"@), "state.json"@),
{
    let base = runtime_dir(root);
    join_path(base.as_str(), "state.json")
}

/// The local rate-limit buckets.
pub fn rate_limit_state_file(root: &str) -> (p: String)
    ensures
        p@ == path_join(path_join(root@, "runtime/dataplane"@), "rate-limit-state.json"@),
{
    let base = runtime_dir(root);
    join_path(base.as_str(), "rate-limit-state.json")
}

/// The nginx binary: the `GATEWAY_NGINX_BIN` override when set, else
/// `bin/nginx` under the root.
pub fn project_nginx_bin(root: &str, override_bin: Option<String>) -> (p: String)
    ensures
        p@ == match override_bin {
            Some(b) => b@,
            None => path_join(root@, "bin/nginx"@),
        },
{
    match override_bin {
        Some(b) => b,
        None => join_path(root, "bin/nginx"),
    }
}

} // verus!
