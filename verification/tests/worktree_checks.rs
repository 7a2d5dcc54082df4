use celily::command::CommandError;
use celily::validate::{check_worktree_layout, worktree_preconditions, GitLayout, WorktreeCheckError, WorktreeLayoutError};

fn repo() -> GitLayout {
    GitLayout { dotgit_exists: true, dotgit_is_symlink: false, dotgit_is_dir: true, gitmodules_exists: false }
}

fn failed(msg: &str) -> Result<(), CommandError> {
    Err(CommandError::Io { message: msg.into() })
}

#[test]
fn layout_problems_come_first_and_in_order() {
    let mut l = repo();
    l.gitmodules_exists = true;
    assert!(matches!(check_worktree_layout(l), Err(WorktreeLayoutError::HasSubmodules)));
    l.dotgit_is_dir = false;
    assert!(matches!(check_worktree_layout(l), Err(WorktreeLayoutError::GitDirIsFile)));
    l.dotgit_is_symlink = true;
    assert!(matches!(check_worktree_layout(l), Err(WorktreeLayoutError::GitDirIsSymlink)));
    l.dotgit_exists = false;
    let e = worktree_preconditions(l, None, None).unwrap_err();
    assert_eq!(
        e.message("/p", "/p/.git", "b"),
        "worktree mode requires a git repository (no .git directory found in /p)"
    );
}

#[test]
fn repository_without_commit_is_refused() {
    let e = worktree_preconditions(repo(), Some(failed("no HEAD")), None).unwrap_err();
    assert!(matches!(e, WorktreeCheckError::NoCommit(_)));
    assert_eq!(
        e.message("/p", "/p/.git", "b"),
        "worktree mode requires at least one commit in the repository: failed to spawn command: no HEAD"
    );
}

#[test]
fn invalid_branch_name_is_refused() {
    let e = worktree_preconditions(repo(), Some(Ok(())), Some(failed("bad"))).unwrap_err();
    assert_eq!(e.message("/p", "/p/.git", "a..b"), "invalid worktree branch name 'a..b': failed to spawn command: bad");
}

#[test]
fn repository_with_commit_and_valid_branch_passes() {
    assert!(worktree_preconditions(repo(), Some(Ok(())), Some(Ok(()))).is_ok());
}
