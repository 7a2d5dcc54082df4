//! `[worktree]`: worktree mode settings.

use vstd::prelude::*;
use super::merge_strategy::{or_default, prefer_some};

verus! {

/// Worktree configuration under `[worktree]`.
///
/// All fields are optional. Worktree mode is activated by passing
/// `--worktree NAME` on the CLI; this section configures its behaviour.
#[derive(Debug)]
pub struct WorktreeConfig {
    /// Template for the worktree branch name. `{name}` is replaced with
    /// the name given to `--worktree`. Defaults to `"celily/{name}"`
    /// when `None`.
    pub branch: Option<String>,
    /// Auto-commit uncommitted changes before container teardown.
    /// Defaults to `true` when `None`.
    pub auto_commit: Option<bool>,
    /// Git user.name for auto-commits. Falls back to the host project's
    /// git config when `None`.
    pub user_name: Option<String>,
    /// Git user.email for auto-commits. Falls back to the host project's
    /// git config when `None`.
    pub user_email: Option<String>,
}

impl Default for WorktreeConfig {
    fn default() -> (r: Self)
        ensures
            r.branch is None && r.auto_commit is None && r.user_name is None && r.user_email is None,
    {
        WorktreeConfig { branch: None, auto_commit: None, user_name: None, user_email: None }
    }
}

impl WorktreeConfig {
    /// Each field: the profile value when set, else the default.
    pub fn merge(default: Self, profile: Self) -> (r: Self)
        ensures
            r.branch == prefer_some(default.branch, profile.branch),
            r.auto_commit == prefer_some(default.auto_commit, profile.auto_commit),
            r.user_name == prefer_some(default.user_name, profile.user_name),
            r.user_email == prefer_some(default.user_email, profile.user_email),
    {
        WorktreeConfig {
            branch: or_default(default.branch, profile.branch),
            auto_commit: or_default(default.auto_commit, profile.auto_commit),
            user_name: or_default(default.user_name, profile.user_name),
            user_email: or_default(default.user_email, profile.user_email),
        }
    }
}

} // verus!
