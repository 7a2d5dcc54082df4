use celily::config::loading::{check_default, dir_profile_order, merge_chain, profile_order, root_first};
use celily::config::profiles::ProfileCandidate;
use celily::config::{Config, ConfigError};
use celily::distro::DistroKind;
use celily::envmap::EnvMap;

fn inherit(pairs: &[(&str, &str)]) -> EnvMap {
    EnvMap::from_pairs(pairs.iter().map(|(k, v)| (k.to_string(), v.to_string())).collect())
}

fn with_image(img: &str) -> Config {
    let mut c = Config::default();
    c.image = Some(img.into());
    c
}

fn candidate(name: &str, dir: Option<&str>) -> ProfileCandidate {
    ProfileCandidate { name: name.into(), canonical: dir.map(|d| d.to_string()) }
}

fn validation(r: Result<Config, ConfigError>) -> String {
    match r {
        Err(ConfigError::Validation(m)) => m,
        other => panic!("expected a validation error, got {:?}", other.map(|c| c.image)),
    }
}

#[test]
fn missing_global_config_is_refused() {
    let m = validation(check_default("/c/celily/config.toml", None));
    assert_eq!(m, "/c/celily/config.toml not found; a config file with distro is required");
}

#[test]
fn global_config_without_distro_is_refused() {
    let m = validation(check_default("/c/celily/config.toml", Some(Config::default())));
    assert_eq!(m, "/c/celily/config.toml: distro is required (e.g. distro = \"arch\")");
}

#[test]
fn global_config_with_distro_is_kept() {
    let mut c = with_image("img");
    c.distro = Some(DistroKind::Arch);
    let r = check_default("/c/celily/config.toml", Some(c)).unwrap();
    assert_eq!(r.image.as_deref(), Some("img"));
}

#[test]
fn root_first_reverses_the_chain() {
    let chain = vec!["leaf".to_string(), "mid".to_string(), "root".to_string()];
    assert_eq!(root_first(&chain), vec!["root", "mid", "leaf"]);
}

#[test]
fn profile_order_is_root_first() {
    let order = profile_order("leaf", &inherit(&[("leaf", "mid"), ("mid", "root")])).unwrap();
    assert_eq!(order, vec!["root", "mid", "leaf"]);
}

#[test]
fn profile_order_reports_self_inheritance() {
    match profile_order("a", &inherit(&[("a", "a")])) {
        Err(ConfigError::Validation(m)) => assert_eq!(m, "profile 'a' cannot inherit from itself"),
        other => panic!("unexpected {:?}", other.is_ok()),
    }
}

#[test]
fn directory_without_a_mapping_merges_nothing() {
    let cands = vec![candidate("other", Some("/srv/other")), candidate("broken", None)];
    let order = dir_profile_order("/home/u/proj", &cands, &EnvMap::new()).unwrap();
    assert!(order.is_empty());
    let r = merge_chain(with_image("default"), "/c", &order, vec![]).unwrap();
    assert_eq!(r.image.as_deref(), Some("default"));
}

#[test]
fn deepest_mapped_directory_wins() {
    let cands = vec![
        candidate("outer", Some("/home/u")),
        candidate("inner", Some("/home/u/proj")),
        candidate("sibling", Some("/home/u/other")),
    ];
    let order = dir_profile_order("/home/u/proj/src", &cands, &inherit(&[("inner", "base")])).unwrap();
    assert_eq!(order, vec!["base", "inner"]);
}

#[test]
fn profiles_merge_root_first_over_the_default() {
    let order = vec!["base".to_string(), "leaf".to_string()];
    let files = vec![Some(with_image("base-img")), Some(with_image("leaf-img"))];
    let r = merge_chain(with_image("default"), "/c", &order, files).unwrap();
    assert_eq!(r.image.as_deref(), Some("leaf-img"));
    let files = vec![Some(with_image("base-img")), Some(Config::default())];
    let r = merge_chain(with_image("default"), "/c", &order, files).unwrap();
    assert_eq!(r.image.as_deref(), Some("base-img"));
}

#[test]
fn first_missing_profile_is_reported() {
    let order = vec!["base".to_string(), "leaf".to_string()];
    let files = vec![None, None];
    let m = validation(merge_chain(with_image("default"), "/c", &order, files));
    assert_eq!(m, "profile 'base' not found at /c/celily/profiles/base.toml");
}
