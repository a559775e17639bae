//! Verified core of the ingress gateway data plane: the configuration
//! scanners and per-request decisions of the Wasm filters, the local
//! providers and rate limiter of the admin daemon, the runtime layout, the
//! revision bundle assembly and validation, the nginx configuration
//! renderers (filters in nginx, or a preflight to the daemon), the state
//! transitions of loading and deploying revisions, and the decisions of
//! the admin API.

pub mod text;
pub mod numtext;
pub mod conf_text;
pub mod order;
pub mod auth;
pub mod header;
pub mod rate_limit;
pub mod tenant;
pub mod observe;
pub mod models;
pub mod layout;
pub mod repo_layout;
pub mod nginx;
pub mod preflight;
pub mod providers;
pub mod revision;
pub mod runtime;
pub mod blocking;
pub mod admin;
