use celily::path::{expand_container_tilde, expand_host_tilde, is_under_or_eq, paths_equal};

#[test]
fn expand_host_tilde_leading_tilde() {
    let result = expand_host_tilde("~/projects/foo", "/home/user");
    assert!(paths_equal(&result, "/home/user/projects/foo"), "got {result}");
}

#[test]
fn expand_host_tilde_tilde_only() {
    let result = expand_host_tilde("~", "/home/user");
    assert!(paths_equal(&result, "/home/user"), "got {result}");
}

#[test]
fn expand_host_tilde_absolute_path_unchanged() {
    let result = expand_host_tilde("/etc/passwd", "/home/user");
    assert!(paths_equal(&result, "/etc/passwd"), "got {result}");
}

#[test]
fn expand_host_tilde_relative_path_unchanged() {
    let result = expand_host_tilde("foo/bar", "/home/user");
    assert!(paths_equal(&result, "foo/bar"), "got {result}");
}

#[test]
fn expand_host_tilde_tilde_slash() {
    let result = expand_host_tilde("~/", "/home/user");
    assert!(paths_equal(&result, "/home/user"), "got {result}");
}

#[test]
fn expand_host_tilde_tilde_user_rejected() {
    let result = expand_host_tilde("~root/.ssh", "/home/user");
    assert!(paths_equal(&result, "~root/.ssh"), "got {result}");
}

#[test]
fn expand_host_tilde_tilde_user_only_rejected() {
    let result = expand_host_tilde("~root", "/home/user");
    assert!(paths_equal(&result, "~root"), "got {result}");
}

#[test]
fn expand_container_tilde_basic() {
    let result = expand_container_tilde("~/work", "/home/dev");
    assert!(paths_equal(&result, "/home/dev/work"), "got {result}");
}

#[test]
fn expand_container_tilde_no_tilde() {
    let result = expand_container_tilde("/opt/app", "/home/dev");
    assert!(paths_equal(&result, "/opt/app"), "got {result}");
}

#[test]
fn expand_container_tilde_user_rejected() {
    let result = expand_container_tilde("~root/.config", "/home/dev");
    assert!(paths_equal(&result, "~root/.config"), "got {result}");
}

#[test]
fn is_under_or_eq_exact_match() {
    assert!(is_under_or_eq("/a", "/a"));
}

#[test]
fn is_under_or_eq_child() {
    assert!(is_under_or_eq("/a/b", "/a"));
}

#[test]
fn is_under_or_eq_deep_child() {
    assert!(is_under_or_eq("/a/b/c/d", "/a"));
}

#[test]
fn is_under_or_eq_sibling_not_under() {
    assert!(!is_under_or_eq("/a/foo", "/a/bar"));
}

#[test]
fn is_under_or_eq_prefix_false_positive() {
    // /ab should NOT match as under /a
    assert!(!is_under_or_eq("/ab", "/a"));
}

#[test]
fn is_under_or_eq_parent_not_match() {
    assert!(!is_under_or_eq("/a", "/a/b"));
}

#[test]
fn is_under_or_eq_root() {
    assert!(is_under_or_eq("/", "/"));
    assert!(!is_under_or_eq("/", "/a"));
}

#[test]
fn is_under_or_eq_empty_paths() {
    assert!(!is_under_or_eq("", "/a"));
}

#[test]
fn expanded_text_is_exact() {
    assert_eq!(expand_host_tilde("~/projects/foo", "/home/user"), "/home/user/projects/foo");
    assert_eq!(expand_host_tilde("~", "/home/user"), "/home/user");
    assert_eq!(expand_host_tilde("~/", "/home/user"), "/home/user/");
    assert_eq!(expand_host_tilde("~/x", "/home/user/"), "/home/user/x");
    assert_eq!(expand_host_tilde("~//abs", "/home/user"), "/abs");
}

#[test]
fn paths_compare_by_component() {
    assert!(paths_equal("/a//b/", "/a/b"));
    assert!(paths_equal("/a/./b", "/a/b"));
    assert!(!paths_equal("a/b", "/a/b"));
    assert!(is_under_or_eq("/a/b/", "/a//"));
}

#[test]
fn under_or_eq_is_a_partial_order_on_examples() {
    // reflexive
    assert!(is_under_or_eq("/x/y", "/x/y"));
    // transitive
    assert!(is_under_or_eq("/x/y/z", "/x/y") && is_under_or_eq("/x/y", "/x"));
    assert!(is_under_or_eq("/x/y/z", "/x"));
    // antisymmetric
    assert!(is_under_or_eq("/x/", "/x") && is_under_or_eq("/x", "/x/"));
    assert!(paths_equal("/x/", "/x"));
}
