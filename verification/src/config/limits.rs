//! `[limits]`: resource limits as written in the config.

use vstd::prelude::*;
use super::merge_strategy::{or_default, prefer_some};

verus! {

#[derive(Debug)]
pub struct Limits {
    pub cpu: Option<u32>,
    pub memory: Option<String>,
    pub disk: Option<String>,
    pub processes: Option<i32>,
    /// disk priority (0-10, 0 = lowest priority). Containers only.
    pub disk_priority: Option<u32>,
    /// Memory enforcement mode ("soft" or "hard"). Containers only.
    pub memory_enforce: Option<String>,
    /// Incoming network bandwidth limit (bit/s, e.g. "100Mbit").
    pub network_ingress: Option<String>,
    /// Outgoing network bandwidth limit (bit/s, e.g. "50Mbit").
    pub network_egress: Option<String>,
}

impl Default for Limits {
    fn default() -> (r: Self)
        ensures
            r.cpu is None && r.memory is None && r.disk is None && r.processes is None,
            r.disk_priority is None && r.memory_enforce is None,
            r.network_ingress is None && r.network_egress is None,
    {
        Limits {
            cpu: None,
            memory: None,
            disk: None,
            processes: None,
            disk_priority: None,
            memory_enforce: None,
            network_ingress: None,
            network_egress: None,
        }
    }
}

impl Limits {
    /// Each field: the profile value when set, else the default.
    pub fn merge(default: Self, profile: Self) -> (r: Self)
        ensures
            r.cpu == prefer_some(default.cpu, profile.cpu),
            r.memory == prefer_some(default.memory, profile.memory),
            r.disk == prefer_some(default.disk, profile.disk),
            r.processes == prefer_some(default.processes, profile.processes),
            r.disk_priority == prefer_some(default.disk_priority, profile.disk_priority),
            r.memory_enforce == prefer_some(default.memory_enforce, profile.memory_enforce),
            r.network_ingress == prefer_some(default.network_ingress, profile.network_ingress),
            r.network_egress == prefer_some(default.network_egress, profile.network_egress),
    {
        Limits {
            cpu: or_default(default.cpu, profile.cpu),
            memory: or_default(default.memory, profile.memory),
            disk: or_default(default.disk, profile.disk),
            processes: or_default(default.processes, profile.processes),
            disk_priority: or_default(default.disk_priority, profile.disk_priority),
            memory_enforce: or_default(default.memory_enforce, profile.memory_enforce),
            network_ingress: or_default(default.network_ingress, profile.network_ingress),
            network_egress: or_default(default.network_egress, profile.network_egress),
        }
    }
}

} // verus!
