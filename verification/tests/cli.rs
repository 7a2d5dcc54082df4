use celily::cli::parse_cli_mount;
use celily::mount::AccessMode;

#[test]
fn basic_mount() {
    let m = parse_cli_mount("/src:/dst").unwrap();
    assert_eq!(m.source, "/src");
    assert_eq!(m.target, "/dst");
    assert_eq!(m.access, AccessMode::ReadOnly);
}

#[test]
fn readwrite_mount() {
    let m = parse_cli_mount("/src:/dst:readwrite").unwrap();
    assert_eq!(m.access, AccessMode::ReadWrite);
}

#[test]
fn readonly_mount() {
    let m = parse_cli_mount("/src:/dst:readonly").unwrap();
    assert_eq!(m.access, AccessMode::ReadOnly);
}

#[test]
fn relative_paths() {
    let m = parse_cli_mount("./foo:./bar").unwrap();
    assert_eq!(m.source, "./foo");
    assert_eq!(m.target, "./bar");
}

#[test]
fn too_few_parts() {
    let err = parse_cli_mount("/only-source").unwrap_err();
    assert!(err.contains("expected 'source:target"));
}

#[test]
fn empty_string() {
    let err = parse_cli_mount("").unwrap_err();
    assert!(err.contains("expected 'source:target"));
}

#[test]
fn unknown_flag() {
    let err = parse_cli_mount("/src:/dst:ro").unwrap_err();
    assert!(err.contains("invalid mount flag"));
}

#[test]
fn extra_colons_ignored() {
    let err = parse_cli_mount("a:b:c:d").unwrap_err();
    assert!(err.contains("invalid mount flag"));
}

#[test]
fn mount_error_messages_are_exact() {
    assert_eq!(
        parse_cli_mount("x").unwrap_err(),
        "expected 'source:target[:readwrite|readonly]', got 'x'"
    );
    assert_eq!(
        parse_cli_mount("a:b:rw").unwrap_err(),
        "invalid mount flag: Matching variant not found"
    );
}

#[test]
fn access_mode_names_round_trip() {
    for m in [AccessMode::ReadOnly, AccessMode::ReadWrite] {
        assert_eq!(AccessMode::parse(m.as_str()), Some(m));
    }
    assert_eq!(AccessMode::parse("ReadOnly"), None);
    assert_eq!(AccessMode::default(), AccessMode::ReadOnly);
}
