//! Distribution-specific behaviour inside the instance.

use vstd::prelude::*;

verus! {

/// Which Linux distribution the image is based on.
#[derive(Debug, Clone, Copy, PartialEq, Eq, Structural)]
pub enum DistroKind {
    /// Arch Linux.
    Arch,
}

impl Default for DistroKind {
    fn default() -> (r: Self)
        ensures
            r == DistroKind::Arch,
    {
        DistroKind::Arch
    }
}

impl DistroKind {
    /// Directory inside the container where additional CA certificates are
    /// placed (absolute path, no trailing slash).
    pub fn ca_cert_anchors_dir(self) -> (r: &'static str)
        ensures
            match self {
                DistroKind::Arch => r@ == "/etc/ca-certificates/trust-source/anchors"@,
            },
    {
        match self {
            DistroKind::Arch => "/etc/ca-certificates/trust-source/anchors",
        }
    }

    /// Command to rebuild the system CA trust store after a new certificate
    /// has been placed in the anchors directory.
    pub fn rebuild_trust_store_command(self) -> (r: &'static str)
        ensures
            match self {
                DistroKind::Arch => r@ == "update-ca-trust"@,
            },
    {
        match self {
            DistroKind::Arch => "update-ca-trust",
        }
    }

    /// The distribution named `s` in the config (`arch`).
    pub fn from_name(s: &str) -> (r: Option<DistroKind>)
        ensures
            r == (if s@ == "arch"@ { Some(DistroKind::Arch) } else { None }),
    {
        if crate::strings::str_eq(s, "arch") {
            Some(DistroKind::Arch)
        } else {
            None
        }
    }
}

} // verus!
