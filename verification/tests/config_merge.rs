use celily::config::Config;
use celily::envmap::EnvMap;
use celily::instance::InstanceKind;
use celily::mount::{AccessMode, Mount};

fn config_with_image(img: &str) -> Config {
    let mut c = Config::default();
    c.image = Some(img.into());
    c
}

#[test]
fn image_profile_wins() {
    let merged = Config::merge(config_with_image("default-img"), config_with_image("profile-img"));
    assert_eq!(merged.image.as_deref(), Some("profile-img"));
}

#[test]
fn image_default_when_profile_missing() {
    let merged = Config::merge(config_with_image("default-img"), Config::default());
    assert_eq!(merged.image.as_deref(), Some("default-img"));
}

#[test]
fn user_and_uid() {
    let mut default = Config::default();
    default.user = Some("dev".into());
    default.container_uid = Some(1000);
    default.container_gid = Some(1000);
    let mut profile = Config::default();
    profile.user = Some("builder".into());
    let merged = Config::merge(default, profile);
    assert_eq!(merged.user.as_deref(), Some("builder"));
    assert_eq!(merged.container_uid, Some(1000));
    assert_eq!(merged.container_gid, Some(1000));
}

#[test]
fn vm_falls_back() {
    let mut default = Config::default();
    default.kind = Some(InstanceKind::Vm);
    let merged = Config::merge(default, Config::default());
    assert_eq!(merged.kind, Some(InstanceKind::Vm));
}

#[test]
fn security_nesting_profile_wins() {
    let mut default = Config::default();
    default.security_nesting = Some(false);
    let mut profile = Config::default();
    profile.security_nesting = Some(true);
    let merged = Config::merge(default, profile);
    assert_eq!(merged.security_nesting, Some(true));
}

#[test]
fn security_nesting_falls_back() {
    let mut default = Config::default();
    default.security_nesting = Some(true);
    let merged = Config::merge(default, Config::default());
    assert_eq!(merged.security_nesting, Some(true));
}

#[test]
fn mounts_additive() {
    let mut default = Config::default();
    default.mounts = vec![Mount {
        source: "/src-a".into(),
        target: "/tgt-a".into(),
        access: AccessMode::ReadOnly,
    }];
    let mut profile = Config::default();
    profile.mounts = vec![Mount {
        source: "/src-b".into(),
        target: "/tgt-b".into(),
        access: AccessMode::ReadWrite,
    }];
    let merged = Config::merge(default, profile);
    assert_eq!(merged.mounts.len(), 2);
    assert_eq!(merged.mounts[0].source, "/src-a");
    assert_eq!(merged.mounts[1].source, "/src-b");
    assert_eq!(merged.mounts[1].access, AccessMode::ReadWrite);
}

#[test]
fn allowed_dirs_additive() {
    let mut default = Config::default();
    default.allowed_dirs = vec!["/a".into()];
    let mut profile = Config::default();
    profile.allowed_dirs = vec!["/b".into()];
    let merged = Config::merge(default, profile);
    assert_eq!(merged.allowed_dirs, vec!["/a".to_string(), "/b".to_string()]);
}

#[test]
fn allowed_files_additive() {
    let mut default = Config::default();
    default.allowed_files = vec!["/a".into()];
    let mut profile = Config::default();
    profile.allowed_files = vec!["/b".into()];
    let merged = Config::merge(default, profile);
    assert_eq!(merged.allowed_files, vec!["/a".to_string(), "/b".to_string()]);
}

#[test]
fn pass_env_additive() {
    let mut default = Config::default();
    default.pass_env = vec!["FOO".into()];
    let mut profile = Config::default();
    profile.pass_env = vec!["BAR".into()];
    let merged = Config::merge(default, profile);
    assert_eq!(merged.pass_env, vec!["FOO", "BAR"]);
}

#[test]
fn secret_provider_profile_wins() {
    let mut default = Config::default();
    default.secret_provider = Some("rbw".into());
    let mut profile = Config::default();
    profile.secret_provider = Some("custom".into());
    let merged = Config::merge(default, profile);
    assert_eq!(merged.secret_provider.unwrap(), "custom");
}

#[test]
fn secret_provider_falls_back_to_default() {
    let mut default = Config::default();
    default.secret_provider = Some("rbw".into());
    let merged = Config::merge(default, Config::default());
    assert_eq!(merged.secret_provider.unwrap(), "rbw");
}

#[test]
fn env_additive() {
    let mut default = Config::default();
    default.env.insert("A".into(), "1".into());
    let mut profile = Config::default();
    profile.env.insert("B".into(), "2".into());
    profile.env.insert("A".into(), "overwritten".into());
    let merged = Config::merge(default, profile);
    assert_eq!(merged.env.len(), 2);
    assert_eq!(merged.env.get("A").unwrap(), "overwritten");
    assert_eq!(merged.env.get("B").unwrap(), "2");
}

#[test]
fn pre_run_profile_wins() {
    let mut default = Config::default();
    default.pre_run = Some("echo default".into());
    let mut profile = Config::default();
    profile.pre_run = Some("echo profile".into());
    let merged = Config::merge(default, profile);
    assert_eq!(merged.pre_run.as_deref(), Some("echo profile"));
}

#[test]
fn pre_run_default_fallback() {
    let mut default = Config::default();
    default.pre_run = Some("echo default".into());
    let merged = Config::merge(default, Config::default());
    assert_eq!(merged.pre_run.as_deref(), Some("echo default"));
}

#[test]
fn pre_run_none_when_both_absent() {
    let merged = Config::merge(Config::default(), Config::default());
    assert!(merged.pre_run.is_none());
}

#[test]
fn mount_project_default_is_none() {
    let merged = Config::merge(Config::default(), Config::default());
    assert!(merged.mount_project.is_none());
}

#[test]
fn mount_project_profile_wins() {
    let mut profile = Config::default();
    profile.mount_project = Some(true);
    let merged = Config::merge(Config::default(), profile);
    assert_eq!(merged.mount_project, Some(true));
}

#[test]
fn mount_project_falls_back_to_default() {
    let mut default = Config::default();
    default.mount_project = Some(true);
    let merged = Config::merge(default, Config::default());
    assert_eq!(merged.mount_project, Some(true));
}

fn layer(image: Option<&str>, dirs: &[&str], env: &[(&str, &str)]) -> Config {
    let mut c = Config::default();
    c.image = image.map(|s| s.to_string());
    c.allowed_dirs = dirs.iter().map(|s| s.to_string()).collect();
    let mut m = EnvMap::new();
    for (k, v) in env {
        m.insert(k.to_string(), v.to_string());
    }
    c.env = m;
    c
}

#[test]
fn merging_a_chain_does_not_depend_on_grouping() {
    let a = || layer(Some("a"), &["/a"], &[("K", "a"), ("A", "1")]);
    let b = || layer(None, &["/b"], &[("K", "b")]);
    let c = || layer(Some("c"), &[], &[("C", "3")]);
    let left = Config::merge(Config::merge(a(), b()), c());
    let right = Config::merge(a(), Config::merge(b(), c()));
    assert_eq!(left.image, right.image);
    assert_eq!(left.image.as_deref(), Some("c"));
    assert_eq!(left.allowed_dirs, right.allowed_dirs);
    for k in ["K", "A", "C"] {
        assert_eq!(left.env.get(k), right.env.get(k));
    }
    assert_eq!(left.env.get("K").as_deref(), Some("b"));
    assert_eq!(left.env.len(), 3);
}

#[test]
fn merging_an_empty_profile_changes_nothing() {
    let merged = Config::merge(layer(Some("x"), &["/d"], &[("A", "1")]), Config::default());
    assert_eq!(merged.image.as_deref(), Some("x"));
    assert_eq!(merged.allowed_dirs, vec!["/d".to_string()]);
    assert_eq!(merged.env.get("A").as_deref(), Some("1"));
    let onto = Config::merge(Config::default(), layer(Some("y"), &["/e"], &[]));
    assert_eq!(onto.image.as_deref(), Some("y"));
    assert_eq!(onto.allowed_dirs, vec!["/e".to_string()]);
}
