//! Bind mounts.

use vstd::prelude::*;
use crate::strings::{chars_of, chars_eq};

verus! {

/// Access mode for a bind-mount.
#[derive(Debug, Clone, Copy, PartialEq, Eq, Structural)]
pub enum AccessMode {
    /// Read-only access (the default).
    ReadOnly,
    /// Read-write access.
    ReadWrite,
}

impl Default for AccessMode {
    fn default() -> (r: Self)
        ensures
            r == AccessMode::ReadOnly,
    {
        AccessMode::ReadOnly
    }
}

/// The name a mode is written as (`readonly` or `readwrite`).
pub open spec fn access_mode_name(m: AccessMode) -> Seq<char> {
    match m {
        AccessMode::ReadOnly => "readonly"@,
        AccessMode::ReadWrite => "readwrite"@,
    }
}

/// The mode written as `s`, if any (exact, lowercase).
pub open spec fn access_mode_named(s: Seq<char>) -> Option<AccessMode> {
    if s == "readonly"@ {
        Some(AccessMode::ReadOnly)
    } else if s == "readwrite"@ {
        Some(AccessMode::ReadWrite)
    } else {
        None
    }
}

impl AccessMode {
    /// Parse a mode from its lowercase name.
    pub fn parse(s: &str) -> (r: Option<AccessMode>)
        ensures
            r == access_mode_named(s@),
    {
        let v = chars_of(s);
        let ro = chars_of("readonly");
        let rw = chars_of("readwrite");
        if chars_eq(&v, &ro) {
            Some(AccessMode::ReadOnly)
        } else if chars_eq(&v, &rw) {
            Some(AccessMode::ReadWrite)
        } else {
            None
        }
    }

    /// The lowercase name of this mode.
    pub fn as_str(self) -> (r: &'static str)
        ensures
            r@ == access_mode_name(self),
    {
        match self {
            AccessMode::ReadOnly => "readonly",
            AccessMode::ReadWrite => "readwrite",
        }
    }
}

/// Parsing a mode's name gives the mode back.
pub proof fn law_access_mode_name_round_trip(m: AccessMode)
    ensures
        access_mode_named(access_mode_name(m)) == Some(m),
{
    reveal_strlit("readonly");
    reveal_strlit("readwrite");
    if m == AccessMode::ReadWrite {
        assert("readwrite"@ != "readonly"@) by {
            assert("readwrite"@.len() != "readonly"@.len());
        }
    }
}

/// A host path bind-mounted at a path inside the instance.
#[derive(Debug, Clone)]
pub struct Mount {
    pub source: String,
    pub target: String,
    pub access: AccessMode,
}

impl Mount {
    /// Copy of the mount.
    pub fn copy(&self) -> (r: Mount)
        ensures
            r.source@ == self.source@,
            r.target@ == self.target@,
            r.access == self.access,
    {
        Mount { source: self.source.clone(), target: self.target.clone(), access: self.access }
    }
}

/// Two mounts agree field for field.
pub open spec fn same_mount(a: Mount, b: Mount) -> bool {
    a.source@ == b.source@ && a.target@ == b.target@ && a.access == b.access
}

/// Two lists of mounts hold the same mounts in the same order.
pub open spec fn same_mounts(a: Seq<Mount>, b: Seq<Mount>) -> bool {
    a.len() == b.len() && forall|i: int| 0 <= i < a.len() ==> same_mount(#[trigger] a[i], b[i])
}

/// Copy of a list of mounts.
pub fn copy_mounts(v: &Vec<Mount>) -> (r: Vec<Mount>)
    ensures
        same_mounts(r@, v@),
{
    let mut r: Vec<Mount> = Vec::new();
    let mut i: usize = 0;
    while i < v.len()
        invariant
            i <= v.len(),
            r@.len() == i,
            forall|j: int| 0 <= j < i ==> same_mount(#[trigger] r@[j], v@[j]),
        decreases v.len() - i,
    {
        let m = v[i].copy();
        r.push(m);
        i = i + 1;
    }
    r
}

} // verus!
