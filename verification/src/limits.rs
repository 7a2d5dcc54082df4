//! Resource limits of an instance.

use vstd::prelude::*;
use crate::strings::owned;

verus! {

/// Resource limits for an isolated environment.
///
/// Core fields (`cpu`, `memory`, `disk`, `processes`) are required and
/// have defaults. The remaining fields are optional container-specific
/// limits.
#[derive(Debug)]
pub struct Limits {
    /// CPU core limit.
    pub cpu: u32,
    /// Memory limit (e.g. "4GiB", "512MiB").
    pub memory: String,
    /// Root disk size (e.g. "4GiB", "20GiB").
    pub disk: String,
    /// Maximum number of processes (-1 for unlimited).
    pub processes: i32,
    /// Disk I/O priority (0-10). Containers only.
    pub disk_priority: Option<u32>,
    /// Memory enforcement mode ("soft" or "hard"). Containers only.
    pub memory_enforce: Option<String>,
    /// Incoming network bandwidth limit (e.g. "100Mbit").
    pub network_ingress: Option<String>,
    /// Outgoing network bandwidth limit (e.g. "50Mbit").
    pub network_egress: Option<String>,
}

impl Default for Limits {
    /// 2 CPUs, 4GiB of memory and of disk, 1024 processes, nothing else.
    fn default() -> (r: Self)
        ensures
            r.cpu == 2,
            r.memory@ == "4GiB"@,
            r.disk@ == "4GiB"@,
            r.processes == 1024,
            r.disk_priority is None,
            r.memory_enforce is None,
            r.network_ingress is None,
            r.network_egress is None,
    {
        Limits {
            cpu: 2,
            memory: owned("4GiB"),
            disk: owned("4GiB"),
            processes: 1024,
            disk_priority: None,
            memory_enforce: None,
            network_ingress: None,
            network_egress: None,
        }
    }
}

} // verus!
