use celily::username::is_valid_username;

#[test]
fn is_valid_username_accepts_standard() {
    assert!(is_valid_username("dev"));
    assert!(is_valid_username("a"));
    assert!(is_valid_username("user_name"));
    assert!(is_valid_username("user-name"));
    assert!(is_valid_username("_underscore"));
    assert!(is_valid_username("z".repeat(32).as_str()));
}

#[test]
fn is_valid_username_rejects_invalid() {
    assert!(!is_valid_username(""));
    assert!(!is_valid_username("1starts_with_digit"));
    assert!(!is_valid_username("-starts_with_hyphen"));
    assert!(!is_valid_username("UPPERCASE"));
    assert!(!is_valid_username("has spaces"));
    assert!(!is_valid_username("a".repeat(33).as_str()));
    assert!(!is_valid_username("special!char"));
}
