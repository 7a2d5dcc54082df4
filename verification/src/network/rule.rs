//! Network allow rules.

use vstd::prelude::*;
use crate::envmap::EnvMap;

verus! {

/// A length of time, as whole seconds and the remaining nanoseconds.
#[derive(Debug, Clone, Copy, PartialEq, Eq, Structural)]
pub struct WindowDuration {
    pub secs: u64,
    pub nanos: u32,
}

impl WindowDuration {
    /// Whole seconds (`Duration::as_secs`).
    pub fn as_secs(&self) -> (r: u64)
        ensures
            r == self.secs,
    {
        self.secs
    }
}

/// A request quota tied to an HTTP allow rule.
///
/// When present on an allow rule, requests matching that rule are
/// counted against the quota. Quotas use fixed time buckets aligned
/// to wall clock -- the counter resets when the bucket rolls over.
#[derive(Debug, Clone, Copy)]
pub struct QuotaConfig {
    /// Maximum number of HTTP requests allowed in the time window.
    pub max_requests: u64,

    /// Time window duration. Must be at least one second.
    pub window: WindowDuration,
}

/// Authentication configuration for header injection on allowed hosts.
///
/// Secrets are resolved from `rbw` at startup and routed to mitmdump
/// only - they never appear as environment variables in the container.
#[derive(Debug, Clone)]
pub struct AuthConfig {
    /// Name of an `rbw` item to resolve.
    pub secret: String,

    /// HTTP header name to inject (e.g. `Authorization`, `x-api-key`).
    pub header: String,

    /// Optional prefix prepended to the resolved secret value.
    /// For `Authorization: Bearer <key>`, set `prefix = "Bearer "`.
    pub prefix: Option<String>,
}

/// A single network isolation rule.
///
/// Rules are checked in config-file order; first match wins. Anything
/// not matched by a rule is blocked (default-deny).
///
/// TCP rules are enforced at the bridge ACL level (nftables) and
/// bypass the HTTP proxy entirely.
#[derive(Debug, Clone)]
pub enum NetworkRule {
    /// An HTTP/HTTPS host with optional path prefix, method
    /// restriction, auth injection, and static headers.
    /// All traffic to this host goes through the MITM proxy.
    Http {
        host: String,
        path_prefixes: Option<Vec<String>>,
        auth: Option<AuthConfig>,
        /// Static HTTP headers to inject on matching requests.
        headers: EnvMap,
        /// Allowed HTTP methods (e.g. `["GET", "HEAD"]`).
        /// When absent, all methods are allowed.
        methods: Option<Vec<String>>,
        /// Optional request quota tied to this allow rule.
        quota: Option<QuotaConfig>,
    },

    /// A raw TCP destination (IP address and ports).
    ///
    /// `host` is the textual form of an IP address (IPv4 or IPv6) as the
    /// standard library prints it; hostnames are not resolved. Ports are
    /// joined with commas into a single `destination_port` ACL entry.
    Tcp {
        host: String,
        ports: Vec<u16>,
    },
}

} // verus!
