//! The layout of the development checkout: the repository root is two
//! levels above the daemon's manifest directory, and holds the runtime
//! configuration, the revisions and the data plane's working directory.

use vstd::prelude::*;
use crate::text::{path_join, join_path};

verus! {

/// The repository root before the filesystem resolves it: `../..` under the
/// daemon's manifest directory.
pub fn repo_root(manifest_dir: &str) -> (p: String)
    ensures
        p@ == path_join(manifest_dir@, "../.."@),
{
    join_path(manifest_dir, "../..")
}

/// Local toolchain installs.
pub fn local_dir(root: &str) -> (p: String)
    ensures
        p@ == path_join(root@, ".local"@),
{
    join_path(root, ".local")
}

/// PID files and process logs.
pub fn run_dir(root: &str) -> (p: String)
    ensures
        p@ == path_join(root@, ".run"@),
{
    join_path(root, ".run")
}

/// What the control plane hands over.
pub fn runtime_config_dir(root: &str) -> (p: String)
    ensures
        p@ == path_join(root@, "src/runtime-config"@),
{
    join_path(root, "src/runtime-config")
}

/// One directory per revision.
pub fn revisions_dir(root: &str) -> (p: String)
    ensures
        p@ == path_join(path_join(root@, "src/runtime-config"@), "revisions"@),
{
    let base = runtime_config_dir(root);
    join_path(base.as_str(), "revisions")
}

/// The link to the active revision.
pub fn current_link(root: &str) -> (p: String)
    ensures
        p@ == path_join(path_join(root@, "src/runtime-config"@), "current"@),
{
    let base = runtime_config_dir(root);
    join_path(base.as_str(), "current")
}

/// The data plane's working directory.
pub fn runtime_dir(root: &str) -> (p: String)
    ensures
        p@ == path_join(root@, "src/gateway/runtime"@),
{
    join_path(root, "src/gateway/runtime")
}

/// The nginx prefix directory.
pub fn nginx_runtime_dir(root: &str) -> (p: String)
    ensures
        p@ == path_join(path_join(root@, "src/gateway/runtime"@), "nginx"@),
{
    let base = runtime_dir(root);
    join_path(base.as_str(), "nginx")
}

/// The active nginx configuration.
pub fn nginx_conf_dir(root: &str) -> (p: String)
    ensures
        p@ == path_join(path_join(path_join(root@, "src/gateway/runtime"@), "nginx"@), "conf"@),
{
    let base = nginx_runtime_dir(root);
    join_path(base.as_str(), "conf")
}

/// Configurations rendered per revision.
pub fn generated_dir(root: &str) -> (p: String)
    ensures
        p@ == path_join(path_join(path_join(root@, "src/gateway/runtime"@), "nginx"@), "generated"@),
{
    let base = nginx_runtime_dir(root);
    join_path(base.as_str(), "generated")
}

/// Access, error and bootstrap logs.
pub fn log_dir(root: &str) -> (p: String)
    ensures
        p@ == path_join(path_join(root@, "src/gateway/runtime"@), "logs"@),
{
    let base = runtime_dir(root);
    join_path(base.as_str(), "logs")
}

/// The persisted runtime state.
pub fn state_file(root: &str) -> (p: String)
    ensures
        p@ == path_join(path_join(root@, "src/gateway/runtime"@), "state.json"@),
{
    let base = runtime_dir(root);
    join_path(base.as_str(), "state.json")
}

/// The local rate-limit buckets.
pub fn rate_limit_state_file(root: &str) -> (p: String)
    ensures
        p@ == path_join(path_join(root@, "src/gateway/runtime"@), "rate-limit-state.json"@),
{
    let base = runtime_dir(root);
    join_path(base.as_str(), "rate-limit-state.json")
}

/// The project's Wasm-enabled nginx.
pub fn project_nginx_bin(root: &str) -> (p: String)
    ensures
        p@ == path_join(path_join(root@, ".local"@), "wasmx/nginx"@),
{
    let base = local_dir(root);
    join_path(base.as_str(), "wasmx/nginx")
}

} // verus!
