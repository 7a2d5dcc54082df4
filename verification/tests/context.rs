use celily::cli::Args;
use celily::config::network::{ConfigNetworkRule, ConfigQuotaConfig};
use celily::config::Config;
use celily::context::{resolve_context, resolve_settings, ContextError, HostFacts, Settings};
use celily::envmap::EnvMap;
use celily::instance::InstanceKind;
use celily::mount::{AccessMode, Mount};
use celily::validate::{mount_forbidden_list, MountError, NodeKind, Resolved};

fn default_args() -> Args {
    Args {
        image: None,
        name: None,
        keep_instance: false,
        vm: false,
        cli_mounts: vec![],
        cpu: None,
        memory: None,
        disk: None,
        processes: None,
        user: None,
        root: false,
        container_uid: None,
        container_gid: None,
        cli_env: vec![],
        cli_pass_env: vec![],
        project_target: None,
        profile: None,
        no_profile: false,
        cmd_args: vec![],
        worktree: None,
        no_auto_commit: false,
        worktree_user_name: None,
        worktree_user_email: None,
        mount_project: false,
        no_mount_project: false,
        project_readonly: false,
        no_project_readonly: false,
    }
}

fn settings(args: &Args, cfg: &Config) -> Settings {
    resolve_settings(args, cfg, "/home/u/proj", "/home/u", 1001, 1002).unwrap()
}

#[test]
fn settings_defaults() {
    let s = settings(&default_args(), &Config::default());
    assert_eq!(s.image, "celily");
    assert_eq!(s.kind, InstanceKind::Container);
    assert_eq!(s.cpu, 2);
    assert_eq!(s.memory, "4GiB");
    assert_eq!(s.disk, "4GiB");
    assert_eq!(s.processes, 1024);
    assert_eq!((s.container_uid, s.container_gid), (1000, 1000));
    assert_eq!((s.exec_uid, s.exec_gid), (1000, 1000));
    assert_eq!(s.user_name, "dev");
    assert_eq!(s.container_home, "/home/dev");
    assert_eq!(s.project_target, "/home/dev/project");
    assert_eq!(s.raw_idmap.as_deref(), Some("uid 1001 1000\ngid 1002 1000"));
    assert!(!s.mount_project);
    assert_eq!(s.project_dir, "/home/dev");
    assert!(s.mounts.is_empty());
    assert!(s.ephemeral);
    assert_eq!(s.description, "celily run (celily at /home/u/proj)");
    assert!(s.network_dns && !s.security_nesting && s.secure_boot && s.notifications);
}

#[test]
fn settings_precedence_and_root() {
    let mut args = default_args();
    args.cpu = Some(8);
    args.root = true;
    args.vm = true;
    args.user = Some("NotValid!".into());
    args.keep_instance = true;
    let mut cfg = Config::default();
    cfg.limits.cpu = Some(4);
    cfg.limits.memory = Some("8GiB".into());
    cfg.image = Some("img".into());
    let s = settings(&args, &cfg);
    assert_eq!(s.cpu, 8);
    assert_eq!(s.memory, "8GiB");
    assert_eq!(s.image, "img");
    assert_eq!(s.kind, InstanceKind::Vm);
    assert_eq!(s.raw_idmap, None);
    assert_eq!((s.exec_uid, s.exec_gid), (0, 0));
    assert_eq!(s.container_home, "/root");
    assert!(!s.ephemeral);
}

#[test]
fn settings_reject_invalid_user() {
    let mut args = default_args();
    args.user = Some("Bad User".into());
    match resolve_settings(&args, &Config::default(), "/p", "/h", 0, 0) {
        Err(e) => {
            assert!(matches!(e, ContextError::InvalidUsername { .. }));
            assert_eq!(
                e.message(),
                "invalid username 'Bad User': must match [a-z_][a-z0-9_-]* and be <=32 characters"
            );
        },
        Ok(_) => panic!("expected an error"),
    }
}

#[test]
fn settings_plan_mounts_in_order() {
    let mut args = default_args();
    args.mount_project = true;
    args.cli_mounts = vec![Mount { source: "~/b".into(), target: "~/tb".into(), access: AccessMode::ReadWrite }];
    let mut cfg = Config::default();
    cfg.mounts = vec![Mount { source: "~/a".into(), target: "/ta".into(), access: AccessMode::ReadOnly }];
    let s = settings(&args, &cfg);
    assert!(s.mount_project);
    assert_eq!(s.project_dir, "/home/dev/project");
    let got: Vec<(&str, &str, AccessMode)> =
        s.mounts.iter().map(|m| (m.source.as_str(), m.target.as_str(), m.access)).collect();
    assert_eq!(
        got,
        vec![
            ("/home/u/proj", "/home/dev/project", AccessMode::ReadOnly),
            ("/home/u/a", "/ta", AccessMode::ReadOnly),
            ("/home/u/b", "/home/dev/tb", AccessMode::ReadWrite),
        ]
    );
}

#[test]
fn settings_worktree_forces_project_mount_and_readonly() {
    let mut args = default_args();
    args.worktree = Some("wt".into());
    args.no_mount_project = true;
    args.no_project_readonly = true;
    let s = settings(&args, &Config::default());
    assert!(s.worktree_enabled && s.mount_project && s.effective_readonly);
}

fn host(mount_sources: Vec<Resolved>) -> HostFacts {
    HostFacts {
        cwd: "/home/u/proj".into(),
        home: "/home/u".into(),
        home_canon: "/home/u".into(),
        forbidden: mount_forbidden_list(
            "/home/u".into(),
            "/home/u/.config".into(),
            None,
            None,
            None,
            Some("/home/u/.ssh".into()),
            None,
            None,
        ),
        allowed_dirs: vec!["/home/u/proj".into(), "/home/u/a".into()],
        allowed_files: vec![],
        mount_sources,
        pass_env_values: vec![],
        git_source: "/home/u/proj/.git".into(),
        git_canon: Ok("/home/u/proj/.git".into()),
        instance_uuid: 0xdeadbeef_0000_0000_0000_000000000000,
    }
}

fn dir(p: &str) -> Resolved {
    Resolved::Found { canonical: p.into(), kind: NodeKind::Directory, link: false }
}

#[test]
fn context_validates_mounts_and_builds_env() {
    let mut args = default_args();
    args.mount_project = true;
    args.cli_env = vec!["A=1=2".into()];
    args.cli_pass_env = vec!["TERM".into(), "UNSET".into()];
    let mut cfg = Config::default();
    cfg.env.insert("A".into(), "0".into());
    cfg.env.insert("B".into(), "b".into());
    let s = settings(&args, &cfg);
    let mut h = host(vec![dir("/home/u/proj")]);
    h.pass_env_values = vec![Some("xterm".into()), None];
    let c = resolve_context(s, &None, &cfg.env, &args.cli_env, vec![], &h).unwrap();
    assert_eq!(c.settings.mounts.len(), 1);
    assert_eq!(c.settings.mounts[0].source, "/home/u/proj");
    assert_eq!(c.settings.mounts[0].access, AccessMode::ReadWrite);
    assert_eq!(c.env_map.get("A").as_deref(), Some("1=2"));
    assert_eq!(c.env_map.get("B").as_deref(), Some("b"));
    assert_eq!(c.env_map.get("TERM").as_deref(), Some("xterm"));
    assert_eq!(c.env_map.get("UNSET"), None);
    assert_eq!(c.name, "celily-home-proj-deadbeef");
    assert_eq!(c.instance_uuid, h.instance_uuid);
}

#[test]
fn context_rejects_forbidden_mount() {
    let mut args = default_args();
    args.cli_mounts = vec![Mount { source: "~/.ssh".into(), target: "/s".into(), access: AccessMode::ReadOnly }];
    let s = settings(&args, &Config::default());
    let h = host(vec![dir("/home/u/.ssh")]);
    match resolve_context(s, &None, &EnvMap::new(), &vec![], vec![], &h) {
        Err(ContextError::Mount { error: MountError::Forbidden { path, .. } }) => {
            assert_eq!(path, "/home/u/.ssh")
        },
        other => panic!("unexpected: {other:?}"),
    }
}

#[test]
fn context_rejects_env_without_equals() {
    let mut args = default_args();
    args.cli_env = vec!["NOPE".into()];
    let s = settings(&args, &Config::default());
    match resolve_context(s, &Some("n".into()), &EnvMap::new(), &args.cli_env, vec![], &host(vec![])) {
        Err(e) => assert_eq!(e.message(), "invalid --env value 'NOPE', expected KEY=VALUE"),
        Ok(_) => panic!("expected an error"),
    }
}

#[test]
fn context_converts_rules_and_reports_bad_quota() {
    let s = settings(&default_args(), &Config::default());
    let bad = ConfigNetworkRule::Http {
        host: "h".into(),
        path_prefixes: None,
        auth: None,
        headers: EnvMap::new(),
        methods: None,
        quota: Some(ConfigQuotaConfig { max_requests: 0, window: "1h".into() }),
    };
    match resolve_context(s, &Some("n".into()), &EnvMap::new(), &vec![], vec![bad], &host(vec![])) {
        Err(e) => assert_eq!(e.message(), "max_requests must be > 0"),
        Ok(_) => panic!("expected an error"),
    }
}

#[test]
fn worktree_overlays_git_read_write() {
    let mut args = default_args();
    args.worktree = Some("wt".into());
    let s = settings(&args, &Config::default());
    let c = resolve_context(s, &Some("n".into()), &EnvMap::new(), &vec![], vec![], &host(vec![dir("/home/u/proj")]))
        .unwrap();
    let m = &c.settings.mounts;
    assert_eq!(m.len(), 2);
    assert_eq!(m[0].access, AccessMode::ReadOnly);
    assert_eq!((m[1].source.as_str(), m[1].target.as_str()), ("/home/u/proj/.git", "/home/dev/project/.git"));
    assert_eq!(m[1].access, AccessMode::ReadWrite);
}

#[test]
fn worktree_rejects_git_outside_project() {
    let mut args = default_args();
    args.worktree = Some("wt".into());
    let s = settings(&args, &Config::default());
    let mut h = host(vec![dir("/home/u/proj")]);
    h.git_canon = Ok("/home/u/other/.git".into());
    match resolve_context(s, &Some("n".into()), &EnvMap::new(), &vec![], vec![], &h) {
        Err(e) => assert_eq!(
            e.message(),
            "cannot mount .git overlay: /home/u/proj/.git resolves outside the project directory"
        ),
        Ok(_) => panic!("expected an error"),
    }
    let s = settings(&args, &Config::default());
    h.git_canon = Err("No such file or directory".into());
    match resolve_context(s, &Some("n".into()), &EnvMap::new(), &vec![], vec![], &h) {
        Err(e) => assert_eq!(
            e.message(),
            "cannot resolve .git path: /home/u/proj/.git: No such file or directory"
        ),
        Ok(_) => panic!("expected an error"),
    }
}

#[test]
fn symlinked_mount_source_is_rejected() {
    let dirs = vec!["/home/u/a".to_string()];
    let link = Resolved::Found { canonical: "/home/u/a".into(), kind: NodeKind::Directory, link: true };
    match celily::validate::validate_mount_source("/home/u/l", &link, "/home/u", &[], &dirs, &[]) {
        Err(MountError::NotFileOrDir { path }) => assert_eq!(path, "/home/u/l"),
        other => panic!("unexpected {:?}", other),
    }
    let plain = Resolved::Found { canonical: "/home/u/a".into(), kind: NodeKind::Directory, link: false };
    assert_eq!(
        celily::validate::validate_mount_source("/home/u/a", &plain, "/home/u", &[], &dirs, &[]).ok().unwrap(),
        "/home/u/a"
    );
}

#[test]
fn context_reports_the_first_bad_env_value_and_rule() {
    let mut args = default_args();
    args.cli_env = vec!["A=1".into(), "FIRST".into(), "SECOND".into()];
    let s = settings(&args, &Config::default());
    match resolve_context(s, &Some("n".into()), &EnvMap::new(), &args.cli_env, vec![], &host(vec![])) {
        Err(e) => assert_eq!(e.message(), "invalid --env value 'FIRST', expected KEY=VALUE"),
        Ok(_) => panic!("expected an error"),
    }

    let rule = |max: u64, window: &str| ConfigNetworkRule::Http {
        host: "h".into(),
        path_prefixes: None,
        auth: None,
        headers: EnvMap::new(),
        methods: None,
        quota: Some(ConfigQuotaConfig { max_requests: max, window: window.into() }),
    };
    let s = settings(&default_args(), &Config::default());
    let rules = vec![rule(1, "1h"), rule(1, "1x"), rule(0, "1h")];
    match resolve_context(s, &Some("n".into()), &EnvMap::new(), &vec![], rules, &host(vec![])) {
        Err(e) => assert_eq!(e.message(), "unknown window suffix in '1x'"),
        Ok(_) => panic!("expected an error"),
    }
}
