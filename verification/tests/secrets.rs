use celily::command::CommandError;
use celily::secrets::{Providers, RbwProvider, SecretError, SecretProvider};

#[test]
fn rbw_commands() {
    let p = Providers::Rbw.resolve();
    assert_eq!(p.name(), "rbw");
    assert_eq!(p.availability_command(), vec!["rbw", "unlocked"]);
    assert_eq!(p.resolve_command("github"), vec!["rbw", "get", "github"]);
    assert_eq!(RbwProvider.secret_from_output("tok\n \n"), "tok");
    assert_eq!(RbwProvider.secret_from_output("  a b  "), "  a b");
    assert_eq!(Providers::from_name("rbw"), Some(Providers::Rbw));
    assert_eq!(Providers::from_name("custom"), None);
}

#[test]
fn secret_error_messages() {
    let e = SecretError::Rbw(CommandError::Io { message: "not found".into() });
    assert_eq!(e.message(), "rbw: failed to spawn command: not found");
}

#[test]
fn collected_secrets_are_trimmed_and_keyed_by_name() {
    let names = vec!["gh".to_string(), "npm".to_string()];
    let answers = vec![Ok("tok1\n".to_string()), Ok("tok2  \n".to_string())];
    let m = celily::secrets::collect_secrets(&RbwProvider, &names, answers).unwrap();
    assert_eq!(m.get("gh").as_deref(), Some("tok1"));
    assert_eq!(m.get("npm").as_deref(), Some("tok2"));
    assert_eq!(m.len(), 2);
}

#[test]
fn first_failed_lookup_stops_secret_collection() {
    let names = vec!["gh".to_string(), "npm".to_string()];
    let answers = vec![Err(celily::command::CommandError::Io { message: "locked".into() })];
    match celily::secrets::collect_secrets(&RbwProvider, &names, answers) {
        Err(e) => assert_eq!(e.message(), "rbw: failed to spawn command: locked"),
        Ok(_) => panic!("expected failure"),
    }
}
