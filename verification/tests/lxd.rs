use celily::config::backend::{BackendConfig, BackendKind};
use celily::backend::lxd::{step_outcome, LxcBackend, ProjectAction, ProjectStep, StepOutcome};
use celily::backend::{CreateBridgeParams, Device, InstanceConfig, TcpAllow};
use celily::backend::lxd::gateway_text;
use celily::command::{CommandError, CommandRunner, Logged};
use celily::mount::AccessMode;

fn config() -> InstanceConfig {
    InstanceConfig {
        image: "images:arch".into(),
        ephemeral: true,
        vm: false,
        secure_boot: true,
        cpu: Some(2),
        memory: Some("4GiB".into()),
        disk_size: Some("8GiB".into()),
        processes: Some(-1),
        disk_priority: Some(5),
        memory_enforce: Some("soft".into()),
        raw_idmap: Some("uid 1 2".into()),
        security_nesting: true,
    }
}

#[test]
fn backends_and_prefixes() {
    let mut b = LxcBackend::incus();
    assert_eq!(b.binary(), "incus");
    assert_eq!(LxcBackend::new().binary(), "lxc");
    b.project = Some("p".into());
    b.remote = Some("r".into());
    assert_eq!(b.lxc_project_command(), vec!["incus", "--project", "p", "--remote", "r"]);
    assert_eq!(b.lxc_command(), vec!["incus", "--remote", "r"]);
}

#[test]
fn create_command_for_containers_and_vms() {
    let b = LxcBackend::lxd();
    assert_eq!(
        b.create_command("n", &config()),
        vec![
            "lxc", "init", "images:arch", "n", "--device", "root,size=8GiB", "--ephemeral",
            "--config", "limits.cpu=2", "--config", "limits.memory=4GiB",
            "--config", "limits.processes=-1", "--config", "limits.disk.priority=5",
            "--config", "limits.memory.enforce=soft", "--config", "raw.idmap=uid 1 2",
            "--config", "security.nesting=true", "--config", "security.devlxd=false",
        ]
    );
    let mut vm = config();
    vm.vm = true;
    vm.secure_boot = false;
    vm.ephemeral = false;
    assert_eq!(
        b.create_command("n", &vm),
        vec![
            "lxc", "init", "images:arch", "n", "--device", "root,size=8GiB", "--vm",
            "--config", "boot.mode=uefi-nosecureboot", "--config", "limits.cpu=2",
            "--config", "limits.memory=4GiB", "--config", "raw.idmap=uid 1 2",
            "--config", "security.devlxd=false",
        ]
    );
    assert_eq!(LxcBackend::create_warnings(&vm).len(), 4);
}

#[test]
fn device_commands() {
    let b = LxcBackend::lxd();
    let d = Device::Disk { source: "/h/p".into(), target: "/c/p".into(), access: AccessMode::ReadOnly };
    assert_eq!(
        b.add_device_command("n", "mount0", &d),
        vec!["lxc", "config", "device", "add", "n", "mount0", "disk", "source=/h/p", "path=/c/p", "readonly=true"]
    );
    assert_eq!(
        b.attach_to_bridge_command("n", "br", &Some("10Mbit".into()), &None),
        vec!["lxc", "config", "device", "add", "n", "eth0", "nic", "nictype=bridged", "parent=br", "limits.ingress=10Mbit"]
    );
    assert_eq!(b.start_command("n"), vec!["lxc", "start", "n"]);
}

#[test]
fn outcomes_of_project_commands() {
    assert_eq!(step_outcome(&Ok(())), StepOutcome::Success);
    let exists = Err(CommandError::NonZero {
        argv: "`lxc project create p` ".into(),
        code: Some(1),
        stderr: Some("Error: Project \"p\" already exists".into()),
    });
    assert_eq!(step_outcome(&exists), StepOutcome::AlreadyExists);
    let other = Err(CommandError::NonZero { argv: "x ".into(), code: Some(1), stderr: None });
    assert_eq!(step_outcome(&other), StepOutcome::Failed);
}

struct Script {
    answers: Vec<Result<String, CommandError>>,
    seen: Vec<Vec<String>>,
}

impl CommandRunner for Script {
    fn run(&mut self, argv: &Vec<String>) -> Result<(), CommandError> {
        self.run_stdout(argv).map(|_| ())
    }

    fn run_stdout(&mut self, argv: &Vec<String>) -> Result<String, CommandError> {
        self.seen.push(argv.clone());
        if self.answers.is_empty() {
            Ok(String::new())
        } else {
            self.answers.remove(0)
        }
    }
}

fn ok() -> Result<String, CommandError> {
    Ok(String::new())
}

fn already() -> Result<String, CommandError> {
    Err(CommandError::NonZero { argv: "a ".into(), code: Some(1), stderr: Some("already exists".into()) })
}

#[test]
fn ensure_project_runs_the_setup_steps() {
    let mut b = LxcBackend::lxd();
    let mut none = Logged::new(Script { answers: vec![], seen: vec![] });
    assert!(b.ensure_project(&mut none).is_ok());
    assert!(none.runner.seen.is_empty());

    b.project = Some("proj".into());
    let mut s = Logged::new(Script { answers: vec![already(), already(), ok()], seen: vec![] });
    assert!(b.ensure_project(&mut s).is_ok());
    assert_eq!(s.runner.seen.len(), 3);
    assert_eq!(s.runner.seen[0][3..], ["project", "create", "proj", "--config", "features.images=true"]);
    assert_eq!(s.runner.seen[2][3..], ["profile", "device", "set", "default", "root", "pool", "default"]);

    let mut f = Logged::new(Script {
        answers: vec![ok(), Err(CommandError::Io { message: "boom".into() })],
        seen: vec![],
    });
    match b.ensure_project(&mut f) {
        Err(e) => assert_eq!(e.message(), "failed to spawn command: boom"),
        Ok(()) => panic!("expected failure"),
    }
    assert_eq!(f.runner.seen.len(), 2);
}

#[test]
fn ensure_project_state_machine() {
    let mut b = LxcBackend::lxd();
    assert!(matches!(b.ensure_project_start(), ProjectAction::Done));
    b.project = Some("p".into());
    assert!(matches!(b.ensure_project_start(), ProjectAction::Run { step: ProjectStep::CreateProject, .. }));
    assert!(matches!(
        b.ensure_project_next(ProjectStep::AddRootDevice, StepOutcome::Success),
        ProjectAction::Done
    ));
    assert!(matches!(b.ensure_project_next(ProjectStep::SetRootPool, StepOutcome::AlreadyExists), ProjectAction::Fail));
}

#[test]
fn command_error_texts() {
    let e = CommandError::NonZero { argv: "`lxc start x` ".into(), code: Some(1), stderr: Some("boom".into()) };
    assert_eq!(e.message(), "command `lxc start x` exited with code Some(1)\nstderr: boom");
    assert_eq!(
        celily::command::argv_string("lxc", &vec!["start".into(), "x".into()]),
        "`lxc start x` "
    );
    assert_eq!(celily::command::argv_string("lxc", &vec![]), "`lxc` ");
    assert_eq!(celily::command::extract_stderr("  \n"), None);
    assert_eq!(celily::command::extract_stderr(" err \n").as_deref(), Some("err"));
}

#[test]
fn bridge_setup_commands() {
    let b = LxcBackend::lxd();
    let mut s = Logged::new(Script { answers: vec![ok(), Ok("10.9.8.1/24".into())], seen: vec![] });
    let (mut g, gw) = b.open_bridge(&mut s, "br-1", false).ok().unwrap();
    assert_eq!(gw, "10.9.8.1");
    assert_eq!(s.runner.seen, vec![
        vec!["lxc", "network", "create", "br-1", "--type", "bridge"],
        vec!["lxc", "network", "get", "br-1", "ipv4.address"],
    ]);
    let params = CreateBridgeParams {
        keep: false,
        dns: true,
        proxy_port: 34975,
        dns_port: 34976,
        allow_tcp: vec![TcpAllow { host: "1.2.3.4".into(), ports: vec![22] }],
    };
    s.runner.seen.clear();
    b.finish_bridge(&mut s, &mut g, &params, &gw).ok().unwrap();
    assert!(g.has_acl);
    assert_eq!(s.runner.seen[0], vec!["lxc", "network", "acl", "create", "br-1"]);
    assert_eq!(s.runner.seen.len(), 1 + 4 + 3);
    assert_eq!(s.runner.seen[5][4], "raw.dnsmasq=no-resolv\nno-poll\ncache-size=0\nserver=10.9.8.1#34976\n");
    assert_eq!(s.runner.seen[7], vec!["lxc", "network", "set", "br-1", "security.acls=br-1"]);
    s.runner.seen.clear();
    g.release(&b, &mut s);
    assert_eq!(s.runner.seen, vec![
        vec!["lxc", "network", "acl", "delete", "br-1"],
        vec!["lxc", "network", "delete", "br-1"],
    ]);
    assert_eq!(gateway_text("fd42::1/64"), "fd42::1");
    assert_eq!(gateway_text("10.0.0.1"), "10.0.0.1");
}

#[test]
fn backend_from_config_section() {
    let b = LxcBackend::from_config(&BackendConfig::default());
    assert_eq!(b.binary, "lxc");
    assert_eq!(b.pool, "default");
    assert!(b.project.is_none());
    let c = BackendConfig { kind: Some(BackendKind::Incus), project: Some("work".into()), pool: Some("fast".into()) };
    let b = LxcBackend::from_config(&c);
    assert_eq!(b.binary, "incus");
    assert_eq!(b.pool, "fast");
    assert_eq!(b.project.as_deref(), Some("work"));
}
