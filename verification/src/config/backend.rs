//! `[backend]`: which daemon to drive.

use vstd::prelude::*;
use super::merge_strategy::{or_default, prefer_some};

verus! {

/// Which backend to use for managing instances.
#[derive(Debug, Clone, Copy, PartialEq, Eq, Structural)]
pub enum BackendKind {
    Lxd,
    Incus,
}

/// Backend selection configuration.
#[derive(Debug)]
pub struct BackendConfig {
    /// Which backend to use. Currently `lxd` and `incus` are supported.
    pub kind: Option<BackendKind>,
    /// LXD project name. When set, all LXD commands are scoped to this
    /// project (via `--project`). When `None`, the daemon's default
    /// project is used. Optional.
    pub project: Option<String>,
    /// Storage pool for the root disk device. Applies to both containers
    /// and VMs. When `None`, falls back to `"default"` at runtime.
    pub pool: Option<String>,
}

impl Default for BackendConfig {
    fn default() -> (r: Self)
        ensures
            r.kind is None,
            r.project is None,
            r.pool is None,
    {
        Self { kind: None, project: None, pool: None }
    }
}

impl BackendConfig {
    /// Each field: the profile value when set, else the default.
    pub fn merge(default: Self, profile: Self) -> (r: Self)
        ensures
            r.kind == prefer_some(default.kind, profile.kind),
            r.project == prefer_some(default.project, profile.project),
            r.pool == prefer_some(default.pool, profile.pool),
    {
        BackendConfig {
            kind: or_default(default.kind, profile.kind),
            project: or_default(default.project, profile.project),
            pool: or_default(default.pool, profile.pool),
        }
    }
}

} // verus!
