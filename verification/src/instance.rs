//! The instance lifecycle: what is launched, how, and the states it goes
//! through.

pub mod guard;
pub mod launch;
pub mod lifecycle;
pub mod parents;

use vstd::prelude::*;

verus! {

/// Container or virtual machine.
#[derive(Debug, Clone, Copy, PartialEq, Eq, Structural)]
pub enum InstanceKind {
    Container,
    Vm,
}

impl Default for InstanceKind {
    fn default() -> (r: Self)
        ensures
            r == InstanceKind::Container,
    {
        InstanceKind::Container
    }
}

impl InstanceKind {
    /// The kind a `vm = <bool>` config entry selects.
    pub fn from_vm_flag(vm: bool) -> (r: InstanceKind)
        ensures
            r == (if vm { InstanceKind::Vm } else { InstanceKind::Container }),
    {
        if vm {
            InstanceKind::Vm
        } else {
            InstanceKind::Container
        }
    }
}

/// What `systemctl is-system-running` reports.
#[derive(Debug, Clone, Copy, PartialEq, Eq, Structural)]
pub enum SystemState {
    Starting,
    Running,
    Degraded,
}

impl SystemState {
    pub fn as_str(self) -> (r: &'static str)
        ensures
            r@ == match self {
                SystemState::Starting => "starting"@,
                SystemState::Running => "running"@,
                SystemState::Degraded => "degraded"@,
            },
    {
        match self {
            Self::Starting => "starting",
            Self::Running => "running",
            Self::Degraded => "degraded",
        }
    }
}

/// Errors that can occur during the instance lifecycle.
#[derive(Debug)]
pub enum InstanceError<BE> {
    /// An operation on the instance backend failed.
    Backend { context: &'static str, source: BE },
    /// The instance did not become ready within the timeout.
    Timeout { name: String },
}

impl<BE> InstanceError<BE> {
    pub fn backend(context: &'static str, source: BE) -> (r: Self)
        ensures
            r matches InstanceError::Backend { context: c, source: s } && c == context && s == source,
    {
        InstanceError::Backend { context, source }
    }
}

/// No runtime state: configuration has been assembled but the backend
/// instance has not been created yet.
pub struct Prepared;

} // verus!
