//! Unix-socket proxy devices.

use vstd::prelude::*;
use crate::strings::owned;

verus! {

/// Configuration for a Unix socket proxy device.
///
/// Exposes a host Unix socket inside the instance through an LXD/Incus
/// proxy device.
#[derive(Debug)]
pub struct ProxyDevice {
    /// Host-side socket path in LXD/Incus proxy format (e.g.
    /// `unix:/run/user/1000/dbus-notifications.sock`).
    pub connect: String,
    /// Instance-side listen path (e.g. `unix:/run/dbus-notifications.sock`).
    pub listen: String,
    /// Which side the proxy listens on: `"instance"` (default) or `"host"`.
    pub bind: String,
    /// File mode for the socket inside the instance (e.g. `"0600"`).
    pub mode: String,
}

/// The default `bind`: `instance`.
pub fn default_bind() -> (r: String)
    ensures
        r@ == "instance"@,
{
    owned("instance")
}

/// The default `mode`: `0600`.
pub fn default_mode() -> (r: String)
    ensures
        r@ == "0600"@,
{
    owned("0600")
}

} // verus!
