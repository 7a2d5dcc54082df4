use celily::backend::Device;
use celily::instance::InstanceKind;
use celily::notifications::{notification_devices, notification_socket};

#[test]
fn notification_socket_path() {
    assert_eq!(notification_socket(1000), "/run/user/1000/dbus-notifications.sock");
}

#[test]
fn container_with_socket_gets_the_proxy() {
    let s = notification_socket(1000);
    let d = notification_devices(true, InstanceKind::Container, true, &s, 1001, 1002, 1000, 100);
    assert_eq!(d.len(), 1);
    match &d[0] {
        Device::Proxy { connect, listen, uid, gid, host_uid, host_gid, mode, .. } => {
            assert_eq!(connect, "unix:/run/user/1000/dbus-notifications.sock");
            assert_eq!(listen, "unix:/run/dbus-notifications.sock");
            assert_eq!((*uid, *gid, *host_uid, *host_gid), (1001, 1002, 1000, 100));
            assert_eq!(mode, "0600");
        },
        other => panic!("unexpected {:?}", other),
    }
}

#[test]
fn no_proxy_when_disabled_missing_or_vm() {
    let s = notification_socket(1000);
    assert!(notification_devices(false, InstanceKind::Container, true, &s, 1, 1, 1000, 100).is_empty());
    assert!(notification_devices(true, InstanceKind::Container, false, &s, 1, 1, 1000, 100).is_empty());
    assert!(notification_devices(true, InstanceKind::Vm, true, &s, 1, 1, 1000, 100).is_empty());
}
