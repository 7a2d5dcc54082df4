use celily::backend::mock::{MockInstanceBackend, MockInstanceCall, MockNetworkBackend, MockNetworkCall};
use celily::backend::{CreateBridgeParams, Device, NetworkBackend, ProxyBind, Recorded};
use celily::distro::DistroKind;
use celily::envmap::EnvMap;
use celily::instance::guard::InstanceGuard;
use celily::instance::launch::LaunchConfig;
use celily::instance::lifecycle::{
    after_probe, attach_or_release, attach_to_bridge, ca_cert_path, chown_command, create_instance, exec, finish_start,
    proxy_url, readiness_command, start_instance, Probe, READY_PROBES,
};
use celily::instance::parents::mount_parents_to_chown;
use celily::instance::InstanceKind;
use celily::limits::Limits;
use celily::mount::{AccessMode, Mount};
use celily::network::params::NetworkParams;

fn config() -> LaunchConfig {
    let mut c = LaunchConfig::prepare(
        "img".into(),
        Some("inst".into()),
        Some("br-x".into()),
        DistroKind::Arch,
        Limits::default(),
        NetworkParams::default(),
    );
    c.mounts = vec![
        Mount { source: "/h/p".into(), target: "/home/dev/p".into(), access: AccessMode::ReadOnly },
        Mount { source: "/h/f".into(), target: "/home/dev/f".into(), access: AccessMode::ReadWrite },
    ];
    c.extra_devices = vec![Device::Proxy {
        connect: "unix:/run/x.sock".into(),
        listen: "unix:/run/y.sock".into(),
        uid: 1,
        gid: 2,
        host_uid: 3,
        host_gid: 4,
        bind: ProxyBind::Instance,
        mode: "0660".into(),
    }];
    c.description = "d".into();
    c
}

fn names(calls: &[MockInstanceCall]) -> Vec<String> {
    calls
        .iter()
        .map(|c| match c {
            MockInstanceCall::Create { name } => format!("create {name}"),
            MockInstanceCall::Start { name } => format!("start {name}"),
            MockInstanceCall::Delete { name } => format!("delete {name}"),
            MockInstanceCall::AddDevice { name, dev_name } => format!("add {name} {dev_name}"),
            MockInstanceCall::AttachToBridge { name, bridge } => format!("attach {name} {bridge}"),
            MockInstanceCall::SetDescription { name } => format!("describe {name}"),
            MockInstanceCall::Exec { name } => format!("exec {name}"),
            MockInstanceCall::ExecStdout { name } => format!("exec_stdout {name}"),
            MockInstanceCall::WriteFile { name, path } => format!("write {name} {path}"),
        })
        .collect()
}

#[test]
fn prepare_defaults() {
    let c = LaunchConfig::prepare("i".into(), None, None, DistroKind::Arch, Limits::default(), NetworkParams::default());
    assert_eq!(c.name.len(), 8);
    assert!(c.name.chars().all(|ch| ch.is_ascii_hexdigit()));
    assert!(c.bridge_name.starts_with("br-") && c.bridge_name.len() == 11);
    assert_eq!(c.container_home, "/home/dev");
    assert_eq!((c.container_uid, c.exec_gid), (1000, 1000));
    assert!(c.secure_boot && !c.keep && !c.ephemeral);
    assert_eq!(c.kind, InstanceKind::Container);
}

#[test]
fn instance_config_carries_limits() {
    let mut c = config();
    c.kind = InstanceKind::Vm;
    c.raw_idmap = Some("uid 1 2".into());
    let ic = c.instance_config();
    assert!(ic.vm);
    assert_eq!(ic.cpu, Some(2));
    assert_eq!(ic.memory.as_deref(), Some("4GiB"));
    assert_eq!(ic.disk_size.as_deref(), Some("4GiB"));
    assert_eq!(ic.processes, Some(1024));
    assert_eq!(ic.raw_idmap.as_deref(), Some("uid 1 2"));
}

#[test]
fn device_plan_names_devices_and_skips_files_on_vms() {
    let mut c = config();
    let plan: Vec<String> = c.device_plan(&vec![false, true]).into_iter().map(|(n, _)| n).collect();
    assert_eq!(plan, vec!["mount0", "mount1", "extra0"]);
    c.kind = InstanceKind::Vm;
    let plan: Vec<String> = c.device_plan(&vec![false, true]).into_iter().map(|(n, _)| n).collect();
    assert_eq!(plan, vec!["mount0", "extra0"]);
}

#[test]
fn create_start_and_exec_on_mock() {
    let c = config();
    let mut b = Recorded::new(MockInstanceBackend::new());
    let guard = create_instance(&c, &mut b, &vec![false, false]).ok().unwrap();
    assert_eq!(guard.name, "inst");
    attach_to_bridge(&c, &mut b).ok().unwrap();
    start_instance(&c, &mut b).ok().unwrap();
    let parents = mount_parents_to_chown(&vec!["/home/dev/a/b/c".into()], "/home/dev");
    finish_start(&c, &mut b, "PEM", &parents).ok().unwrap();
    let code = exec(&c, &mut b, "10.0.0.1", 34975, &vec!["true".into()], &EnvMap::new(), &None).ok().unwrap();
    assert_eq!(code, 0);
    assert_eq!(
        names(&b.backend.calls),
        vec![
            "create inst",
            "add inst mount0",
            "add inst mount1",
            "add inst extra0",
            "describe inst",
            "attach inst br-x",
            "start inst",
            "write inst /etc/ca-certificates/trust-source/anchors/mitmproxy-ca-cert.pem",
            "exec_stdout inst",
            "exec_stdout inst",
            "exec_stdout inst",
            "exec inst",
        ]
    );
    assert!(guard.release(&mut b).unwrap().is_ok());
    assert_eq!(names(&b.backend.calls).last().unwrap(), "delete inst");
}

#[test]
fn kept_instances_are_not_deleted() {
    let mut b = Recorded::new(MockInstanceBackend::new());
    let g = InstanceGuard::new("x".into(), true);
    assert!(!g.should_delete());
    assert!(g.release(&mut b).is_none());
    assert!(b.backend.calls.is_empty());
}

#[test]
fn readiness_probing() {
    assert_eq!(readiness_command(), vec!["systemctl", "is-system-running"]);
    assert_eq!(after_probe(0, &Some(" running\n".into())), Probe::Ready);
    assert_eq!(after_probe(0, &Some("degraded".into())), Probe::Again { done: 1 });
    assert_eq!(after_probe(5, &None), Probe::Again { done: 6 });
    assert_eq!(after_probe(READY_PROBES - 1, &Some("starting".into())), Probe::GiveUp);
    let mut done = 0;
    let mut probes = 0;
    loop {
        probes += 1;
        match after_probe(done, &None) {
            Probe::Again { done: d } => done = d,
            Probe::GiveUp => break,
            Probe::Ready => unreachable!(),
        }
    }
    assert_eq!(probes, 60);
}

#[test]
fn helper_texts() {
    assert_eq!(ca_cert_path(DistroKind::Arch), "/etc/ca-certificates/trust-source/anchors/mitmproxy-ca-cert.pem");
    assert_eq!(chown_command(1000, 1001, "/home/dev/a"), vec!["chown", "1000:1001", "/home/dev/a"]);
    assert_eq!(proxy_url("10.0.0.1", 34975), "http://10.0.0.1:34975");
}

#[test]
fn chown_parents_are_sorted_and_stop_at_home_and_mounts() {
    let targets = vec![
        "/home/dev/b/x/y".to_string(),
        "/home/dev/a/m".to_string(),
        "/home/dev/b/x".to_string(),
        "/opt/elsewhere/z".to_string(),
        "/home/dev/a-b/q".to_string(),
    ];
    let p = mount_parents_to_chown(&targets, "/home/dev");
    // /home/dev/b/x is a mount target: the walk from .../x/y stops there,
    // and the walk from /home/dev/b/x continues to /home/dev/b.
    assert_eq!(p, vec!["/home/dev/a", "/home/dev/a-b", "/home/dev/b"]);
    assert!(mount_parents_to_chown(&vec!["/home/dev/p".into()], "/home/dev").is_empty());
}

#[test]
fn chown_parents_follow_path_order() {
    // Component order puts /home/dev/a/z before /home/dev/a-b, unlike text order.
    let p = mount_parents_to_chown(&vec!["/home/dev/a-b/q".into(), "/home/dev/a/z/q".into()], "/home/dev");
    assert_eq!(p, vec!["/home/dev/a", "/home/dev/a/z", "/home/dev/a-b"]);
}

#[test]
fn mock_network_backend_records_bridges() {
    let mut n = MockNetworkBackend::new();
    let params = CreateBridgeParams { keep: false, dns: true, proxy_port: 1, dns_port: 2, allow_tcp: vec![] };
    let (mut g, ip) = n.create_bridge("br0", &params).ok().unwrap();
    assert_eq!(ip, "10.0.0.1");
    assert!(!g.dropped);
    g.release();
    assert!(g.dropped);
    assert_eq!(n.calls, vec![MockNetworkCall::CreateBridge { name: "br0".into() }]);
}

struct Failing {
    fail_create: bool,
    fail_device: bool,
    fail_attach: bool,
    calls: Vec<String>,
}

impl celily::backend::InstanceBackend for Failing {
    type Error = String;

    fn create(&mut self, name: &str, _config: &celily::backend::InstanceConfig) -> Result<(), String> {
        self.calls.push(format!("create {name}"));
        if self.fail_create { Err("no".into()) } else { Ok(()) }
    }

    fn start(&mut self, name: &str) -> Result<(), String> {
        self.calls.push(format!("start {name}"));
        Ok(())
    }

    fn delete(&mut self, name: &str) -> Result<(), String> {
        self.calls.push(format!("delete {name}"));
        Ok(())
    }

    fn add_device(&mut self, name: &str, dev_name: &str, _device: &Device) -> Result<(), String> {
        self.calls.push(format!("add {name} {dev_name}"));
        if self.fail_device { Err("busy".into()) } else { Ok(()) }
    }

    fn attach_to_bridge(&mut self, name: &str, _b: &str, _i: &Option<String>, _e: &Option<String>) -> Result<(), String> {
        self.calls.push(format!("attach {name}"));
        if self.fail_attach { Err("no bridge".into()) } else { Ok(()) }
    }

    fn set_description(&mut self, name: &str, _desc: &str) -> Result<(), String> {
        self.calls.push(format!("describe {name}"));
        Ok(())
    }

    fn exec(
        &mut self,
        _name: &str,
        _cmd: &Vec<String>,
        _env: &EnvMap,
        _cwd: &str,
        _uid: u32,
        _gid: u32,
        _home: &Option<String>,
        _proxy_url: &Option<String>,
    ) -> Result<i32, String> {
        Ok(0)
    }

    fn exec_stdout(&mut self, _name: &str, _cmd: &Vec<String>) -> Result<String, String> {
        Ok(String::new())
    }

    fn write_file(&mut self, _n: &str, _c: &[u8], _p: &str, _m: &str, _u: u32, _g: u32) -> Result<(), String> {
        Ok(())
    }
}

#[test]
fn failed_device_deletes_the_instance_once() {
    let c = config();
    let mut b = Recorded::new(Failing { fail_create: false, fail_device: true, fail_attach: false, calls: vec![] });
    match create_instance(&c, &mut b, &vec![false, false]) {
        Err(celily::instance::InstanceError::Backend { context, source }) => {
            assert_eq!(context, "failed to add disk device");
            assert_eq!(source, "busy");
        },
        _ => panic!("expected failure"),
    }
    assert_eq!(b.backend.calls, vec!["create inst", "add inst mount0", "delete inst"]);
}

#[test]
fn failed_create_or_kept_instance_is_not_deleted() {
    let c = config();
    let mut b = Recorded::new(Failing { fail_create: true, fail_device: false, fail_attach: false, calls: vec![] });
    assert!(create_instance(&c, &mut b, &vec![]).is_err());
    assert_eq!(b.backend.calls, vec!["create inst"]);

    let mut kept = config();
    kept.keep = true;
    let mut b = Recorded::new(Failing { fail_create: false, fail_device: true, fail_attach: false, calls: vec![] });
    assert!(create_instance(&kept, &mut b, &vec![false, false]).is_err());
    assert_eq!(b.backend.calls, vec!["create inst", "add inst mount0"]);
}

fn failing(fail_attach: bool) -> Recorded<Failing> {
    Recorded::new(Failing { fail_create: false, fail_device: false, fail_attach, calls: vec![] })
}

#[test]
fn failed_isolation_deletes_the_created_instance_once() {
    let c = config();
    let mut b = failing(false);
    let g = create_instance(&c, &mut b, &vec![false, false]).unwrap();
    assert!(matches!(attach_or_release(&c, &mut b, g, false), Err(None)));
    assert_eq!(b.backend.calls.iter().filter(|s| s.starts_with("delete")).count(), 1);
    assert_eq!(b.backend.calls.last().map(String::as_str), Some("delete inst"));
}

#[test]
fn failed_attach_deletes_the_created_instance_once() {
    let c = config();
    let mut b = failing(true);
    let g = create_instance(&c, &mut b, &vec![false, false]).unwrap();
    match attach_or_release(&c, &mut b, g, true) {
        Err(Some(celily::instance::InstanceError::Backend { context, source })) => {
            assert_eq!(context, "failed to attach instance to bridge");
            assert_eq!(source, "no bridge");
        },
        _ => panic!("expected failure"),
    }
    let n = b.backend.calls.len();
    assert_eq!(b.backend.calls[n - 2..], ["attach inst", "delete inst"]);
    assert_eq!(b.backend.calls.iter().filter(|s| s.starts_with("delete")).count(), 1);
}

#[test]
fn kept_instance_survives_a_failed_attach_and_attached_one_keeps_its_guard() {
    let mut c = config();
    c.keep = true;
    let mut b = failing(true);
    let g = create_instance(&c, &mut b, &vec![false, false]).unwrap();
    assert!(attach_or_release(&c, &mut b, g, true).is_err());
    assert!(b.backend.calls.iter().all(|s| !s.starts_with("delete")));

    let c = config();
    let mut b = failing(false);
    let g = create_instance(&c, &mut b, &vec![false, false]).unwrap();
    let g = attach_or_release(&c, &mut b, g, true).ok().expect("attached");
    assert_eq!(g.name, "inst");
    assert_eq!(b.backend.calls.last().map(String::as_str), Some("attach inst"));
}
