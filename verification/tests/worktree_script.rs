use celily::run::build_worktree_init_script;

#[test]
fn init_script_with_auto_commit() {
    let script = build_worktree_init_script(
        "celily/test-instance",
        true,
        "test-instance",
        "test-instance",
        "'~/work/project'",
    );
    // Should include the auto-commit block.
    assert!(script.contains("git commit --no-verify"));
    assert!(script.contains("celily: auto-commit test-instance"));
    // Should contain worktree creation in a unique directory (shell-escaped).
    assert!(script.contains("git worktree add ~/'test-instance'"));
    // Should use "$@" for command forwarding.
    assert!(script.contains("\"$@\""));
    // Should clean up worktree metadata.
    assert!(script.contains("git worktree remove --force ~/'test-instance'"));
    // Should contain the project path.
    assert!(script.contains("cd '~/work/project'"));
}

#[test]
fn init_script_without_auto_commit() {
    let script = build_worktree_init_script(
        "celily/test-instance",
        false,
        "test-instance",
        "my-worktree",
        "'~/project'",
    );
    // Should NOT include the auto-commit block.
    assert!(!script.contains("git commit --no-verify"));
    assert!(!script.contains("celily: auto-commit"));
    // Should still have the worktree creation.
    assert!(script.contains("git worktree add ~/'my-worktree'"));
    // Should still clean up.
    assert!(script.contains("git worktree remove --force ~/'my-worktree'"));
}

#[test]
fn init_script_escapes_special_chars() {
    // Branch name with a single-quote should be shell-escaped.
    let script =
        build_worktree_init_script("celily/it's-fine", true, "instance", "it's-fine", "'~/project'");
    // The branch name should be single-quoted.
    assert!(script.contains("'celily/it'"));
}

#[test]
fn init_script_exact_text_without_commit() {
    let script = build_worktree_init_script("b", false, "i", "w", "'/p'");
    assert_eq!(
        script,
        "set -eu\ncd '/p'\n\nbranch='b'\nif git show-ref --verify --quiet \"refs/heads/$branch\"; then\n    git worktree add ~/'w' \"$branch\"\nelse\n    git worktree add ~/'w' -b \"$branch\" HEAD\nfi\ncd ~/'w'\n\n\"$@\"\nrc=$?\n\n# Remove worktree metadata so '/p'/.git is clean.\n# The branch and all commits survive.\ncd '/p'\ngit worktree remove --force ~/'w'\n\nexit $rc\n"
    );
}
