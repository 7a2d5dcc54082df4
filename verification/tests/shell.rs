use celily::shell::shell_escape;

#[test]
fn shell_escape_plain_string() {
    assert_eq!(shell_escape("hello"), "'hello'");
}

#[test]
fn shell_escape_empty() {
    assert_eq!(shell_escape(""), "''");
}

#[test]
fn shell_escape_with_single_quote() {
    assert_eq!(shell_escape("it's"), "'it'\\''s'");
}

#[test]
fn shell_escape_multiple_quotes() {
    assert_eq!(shell_escape("'a''b'"), "''\\''a'\\'''\\''b'\\'''");
}

#[test]
fn shell_escape_special_chars() {
    let val = "pass$word!";
    assert_eq!(shell_escape(val), format!("'{val}'"));
}

/// What `sh` makes of a word built only from single-quoted runs and `\'`.
fn sh_word(w: &str) -> String {
    let mut out = String::new();
    let mut chars = w.chars();
    while let Some(c) = chars.next() {
        match c {
            '\'' => {
                for d in chars.by_ref() {
                    if d == '\'' {
                        break;
                    }
                    out.push(d);
                }
            },
            '\\' => out.push(chars.next().unwrap()),
            other => out.push(other),
        }
    }
    out
}

#[test]
fn shell_escape_round_trips_through_sh() {
    for v in ["", "plain", "it's", "'", "''", "a b\nc", "$(rm -rf /)", "é'ü"] {
        assert_eq!(sh_word(&shell_escape(v)), v);
    }
}
