//! Desktop notifications from inside the instance, through the host's
//! notification proxy socket.

use vstd::prelude::*;
use crate::backend::{Device, DeviceView, ProxyBind};
use crate::instance::InstanceKind;
use crate::strings::{decimal, decimal_chars, owned, push_chars, push_str, string_of};

verus! {

/// Where `xdg-dbus-proxy-notifications.service` puts the host socket:
/// `/run/user/<uid>/dbus-notifications.sock`.
pub fn notification_socket(host_uid: u32) -> (r: String)
    ensures
        r@ == "/run/user/"@ + decimal(host_uid as nat) + "/dbus-notifications.sock"@,
{
    let mut v = Vec::new();
    push_str(&mut v, "/run/user/");
    let d = decimal_chars(host_uid as u64);
    push_chars(&mut v, &d);
    push_str(&mut v, "/dbus-notifications.sock");
    string_of(&v)
}

/// The notification proxy device for the host socket `socket` (see
/// [`notification_device`]).
pub open spec fn notification_view(socket: Seq<char>, uid: u32, gid: u32, host_uid: u32, host_gid: u32) -> DeviceView {
    DeviceView::Proxy {
        connect: "unix:"@ + socket,
        listen: "unix:/run/dbus-notifications.sock"@,
        uid,
        gid,
        host_uid,
        host_gid,
        bind: ProxyBind::Instance,
        mode: "0600"@,
    }
}

/// The proxy device that exposes the host socket at
/// `/run/dbus-notifications.sock` inside the instance (`/run` exists as
/// soon as the instance boots, unlike `/run/user/<uid>`), owned by the
/// container user and reached as the host user. It is added under the
/// name `notifications`.
pub fn notification_device(socket: &str, uid: u32, gid: u32, host_uid: u32, host_gid: u32) -> (r: Device)
    ensures
        r@ == notification_view(socket@, uid, gid, host_uid, host_gid),
{
    let mut c = Vec::new();
    push_str(&mut c, "unix:");
    push_str(&mut c, socket);
    Device::Proxy {
        connect: string_of(&c),
        listen: owned("unix:/run/dbus-notifications.sock"),
        uid,
        gid,
        host_uid,
        host_gid,
        bind: ProxyBind::Instance,
        mode: owned("0600"),
    }
}

/// The extra devices desktop notifications need: the proxy device (see
/// [`notification_device`]) when notifications are enabled, the instance
/// is a container (a proxy that binds a unix socket inside the instance
/// needs one) and the host socket exists; none otherwise.
pub fn notification_devices(
    enabled: bool,
    kind: InstanceKind,
    socket_exists: bool,
    socket: &str,
    uid: u32,
    gid: u32,
    host_uid: u32,
    host_gid: u32,
) -> (r: Vec<Device>)
    ensures
        r@.len() == (if enabled && kind == InstanceKind::Container && socket_exists { 1int } else { 0int }),
        r@.len() == 1 ==> r@[0]@ == notification_view(socket@, uid, gid, host_uid, host_gid),
{
    let mut r = Vec::new();
    if enabled && kind == InstanceKind::Container && socket_exists {
        r.push(notification_device(socket, uid, gid, host_uid, host_gid));
    }
    r
}

} // verus!
