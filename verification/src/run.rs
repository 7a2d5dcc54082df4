//! What a run executes inside the instance: the pre-run script, the user's
//! command, and worktree mode's wrapper, identity and variables.

use vstd::prelude::*;
use crate::cli::Args;
use crate::config::worktree::WorktreeConfig;
use crate::envmap::EnvMap;
use crate::shell::{shell_escape, shell_quoted};
use crate::strings::{
    chars_of, copy_strings, owned, push_chars, push_str, replace_all, replace_all_chars, string_of,
    strings_view, trim, trim_chars,
};

verus! {

// ---------------------------------------------------------------------------
// Worktree script
// ---------------------------------------------------------------------------

/// The safety-net commit block of the worktree script.
pub open spec fn auto_commit_block(commit_msg: Seq<char>) -> Seq<char> {
    "\nif git status --porcelain | grep -q .; then\n    git add -A\n    git commit --no-verify -m "@
        + commit_msg + "\nfi\n"@
}

/// The worktree script for the given (already escaped) parts.
pub open spec fn worktree_script(
    project_path: Seq<char>,
    branch: Seq<char>,
    worktree: Seq<char>,
    block: Seq<char>,
) -> Seq<char> {
    "set -eu\ncd "@ + project_path + "\n\nbranch="@ + branch
        + "\nif git show-ref --verify --quiet \"refs/heads/$branch\"; then\n    git worktree add ~/"@
        + worktree + " \"$branch\"\nelse\n    git worktree add ~/"@ + worktree
        + " -b \"$branch\" HEAD\nfi\ncd ~/"@ + worktree + "\n\n\"$@\"\nrc=$?\n"@ + block
        + "\n# Remove worktree metadata so "@ + project_path
        + "/.git is clean.\n# The branch and all commits survive.\ncd "@ + project_path
        + "\ngit worktree remove --force ~/"@ + worktree + "\n\nexit $rc\n"@
}

/// Build the POSIX `sh` init script that creates a git worktree inside the
/// container and wraps the user's command.
///
/// When `auto_commit` is false (e.g. `--no-auto-commit`), the safety-net
/// commit block is omitted from the generated script entirely.
///
/// `project_path` is the container-side path where the project is mounted
/// (already shell-escaped by the caller).
///
/// The worktree directory is `~/{worktree_name}` -- unique per instance so
/// concurrent instances don't collide on the worktree metadata key. The
/// directory is cleaned up at the end via `git worktree remove --force`
/// (the branch and commits survive).
pub fn build_worktree_init_script(
    branch: &str,
    auto_commit: bool,
    instance_name: &str,
    worktree_name: &str,
    project_path: &str,
) -> (r: String)
    ensures
        r@ == worktree_script(
            project_path@,
            shell_quoted(branch@),
            shell_quoted(worktree_name@),
            if auto_commit {
                auto_commit_block(shell_quoted("celily: auto-commit "@ + instance_name@))
            } else {
                Seq::empty()
            },
        ),
{
    let escaped_branch = shell_escape(branch);
    let escaped_worktree = shell_escape(worktree_name);
    let mut msg = Vec::new();
    push_str(&mut msg, "celily: auto-commit ");
    push_str(&mut msg, instance_name);
    let commit_msg = shell_escape(string_of(&msg).as_str());
    let mut block = Vec::new();
    if auto_commit {
        push_str(&mut block, "\nif git status --porcelain | grep -q .; then\n    git add -A\n    git commit --no-verify -m ");
        push_str(&mut block, commit_msg.as_str());
        push_str(&mut block, "\nfi\n");
    }
    let b = escaped_branch.as_str();
    let w = escaped_worktree.as_str();
    let mut v = Vec::new();
    push_str(&mut v, "set -eu\ncd ");
    push_str(&mut v, project_path);
    push_str(&mut v, "\n\nbranch=");
    push_str(&mut v, b);
    push_str(&mut v, "\nif git show-ref --verify --quiet \"refs/heads/$branch\"; then\n    git worktree add ~/");
    push_str(&mut v, w);
    push_str(&mut v, " \"$branch\"\nelse\n    git worktree add ~/");
    push_str(&mut v, w);
    push_str(&mut v, " -b \"$branch\" HEAD\nfi\ncd ~/");
    push_str(&mut v, w);
    push_str(&mut v, "\n\n\"$@\"\nrc=$?\n");
    push_chars(&mut v, &block);
    push_str(&mut v, "\n# Remove worktree metadata so ");
    push_str(&mut v, project_path);
    push_str(&mut v, "/.git is clean.\n# The branch and all commits survive.\ncd ");
    push_str(&mut v, project_path);
    push_str(&mut v, "\ngit worktree remove --force ~/");
    push_str(&mut v, w);
    push_str(&mut v, "\n\nexit $rc\n");
    proof {
        reveal_strlit("");
        if !auto_commit {
            assert(block@ =~= Seq::<char>::empty());
        }
    }
    string_of(&v)
}

// ---------------------------------------------------------------------------
// Git identity
// ---------------------------------------------------------------------------

/// Why no git identity could be found.
#[derive(Debug, Clone, Copy, PartialEq, Eq, Structural)]
pub enum IdentityError {
    MissingName,
    MissingEmail,
}

impl IdentityError {
    /// The error text.
    pub fn message(&self) -> (r: &'static str)
        ensures
            r@ == match self {
                IdentityError::MissingName => "worktree auto-commit requires user.name; set it in [run.worktree], --worktree-user-name, or the host git config"@,
                IdentityError::MissingEmail => "worktree auto-commit requires user.email; set it in [run.worktree], --worktree-user-email, or the host git config"@,
            },
    {
        match self {
            IdentityError::MissingName => "worktree auto-commit requires user.name; set it in [run.worktree], --worktree-user-name, or the host git config",
            IdentityError::MissingEmail => "worktree auto-commit requires user.email; set it in [run.worktree], --worktree-user-email, or the host git config",
        }
    }
}

/// What `git config <key>` reported, as a value: nothing when the
/// command failed or printed nothing.
pub open spec fn git_value(out: Option<String>) -> Option<Seq<char>> {
    match out {
        Some(v) => if v@.len() == 0 {
            None
        } else {
            Some(v@)
        },
        None => None,
    }
}

/// The first value present, in order of priority.
pub open spec fn first_of(a: Option<String>, b: Option<String>, c: Option<Seq<char>>) -> Option<Seq<char>> {
    match a {
        Some(x) => Some(x@),
        None => match b {
            Some(y) => Some(y@),
            None => c,
        },
    }
}

fn first_present(a: &Option<String>, b: &Option<String>, c: &Option<String>) -> (r: Option<String>)
    ensures
        match first_of(*a, *b, git_value(*c)) {
            Some(x) => r matches Some(s) && s@ == x,
            None => r is None,
        },
{
    match a {
        Some(x) => Some(x.clone()),
        None => match b {
            Some(y) => Some(y.clone()),
            None => match c {
                Some(z) => if z.as_str().is_empty() {
                    None
                } else {
                    Some(z.clone())
                },
                None => None,
            },
        },
    }
}

/// Which values identity resolution needs from the host's git config:
/// the name only when neither the command line nor the configuration
/// gives one, and likewise the e-mail (see [`resolve_git_identity`], which
/// looks at a host value only then).
pub fn git_lookups(args: &Args, wc: &WorktreeConfig) -> (r: (bool, bool))
    ensures
        r.0 == (args.worktree_user_name is None && wc.user_name is None),
        r.1 == (args.worktree_user_email is None && wc.user_email is None),
{
    (
        args.worktree_user_name.is_none() && wc.user_name.is_none(),
        args.worktree_user_email.is_none() && wc.user_email.is_none(),
    )
}

/// Resolve the git identity for worktree auto-commits.
///
/// Priority: `--worktree-user-name`/`--worktree-user-email` >
/// `[run.worktree].user_name`/`user_email` > the host project's git config
/// (`git config user.name` / `git config user.email`, what they printed, or
/// `None` when they failed). Returns an error if no identity can be
/// resolved -- the auto-commit safety net requires a known author.
pub fn resolve_git_identity(
    args: &Args,
    wc: &WorktreeConfig,
    host_name: &Option<String>,
    host_email: &Option<String>,
) -> (r: Result<(String, String), IdentityError>)
    ensures
        match first_of(args.worktree_user_name, wc.user_name, git_value(*host_name)) {
            None => r == Err::<(String, String), IdentityError>(IdentityError::MissingName),
            Some(n) => match first_of(args.worktree_user_email, wc.user_email, git_value(*host_email)) {
                None => r == Err::<(String, String), IdentityError>(IdentityError::MissingEmail),
                Some(e) => r matches Ok((rn, re)) && rn@ == n && re@ == e,
            },
        },
{
    let name = match first_present(&args.worktree_user_name, &wc.user_name, host_name) {
        Some(n) => n,
        None => return Err(IdentityError::MissingName),
    };
    let email = match first_present(&args.worktree_user_email, &wc.user_email, host_email) {
        Some(e) => e,
        None => return Err(IdentityError::MissingEmail),
    };
    Ok((name, email))
}

// ---------------------------------------------------------------------------
// Commands
// ---------------------------------------------------------------------------

/// The `sh` script that runs the pre-run script `trimmed` from a temporary
/// file and passes its exit status on.
pub open spec fn pre_run_wrapper(trimmed: Seq<char>) -> Seq<char> {
    "cat > /tmp/celily-pre-run <<'CELILY_EOF'\n"@ + trimmed
        + "\nCELILY_EOF\nchmod +x /tmp/celily-pre-run && /tmp/celily-pre-run; rc=$?; rm -f /tmp/celily-pre-run; exit $rc"@
}

/// The command that runs the configured pre-run script, if there is one
/// that is not blank: `sh -c <wrapper>`.
pub fn pre_run_command(script: &Option<String>) -> (r: Option<Vec<String>>)
    ensures
        match script {
            None => r is None,
            Some(s) => if trim(s@).len() == 0 {
                r is None
            } else {
                r matches Some(c) && strings_view(c@) == seq!["sh"@, "-c"@, pre_run_wrapper(trim(s@))]
            },
        },
{
    match script {
        None => None,
        Some(s) => {
            let t = trim_chars(&chars_of(s.as_str()));
            if t.len() == 0 {
                return None;
            }
            let mut w = Vec::new();
            push_str(&mut w, "cat > /tmp/celily-pre-run <<'CELILY_EOF'\n");
            push_chars(&mut w, &t);
            push_str(
                &mut w,
                "\nCELILY_EOF\nchmod +x /tmp/celily-pre-run && /tmp/celily-pre-run; rc=$?; rm -f /tmp/celily-pre-run; exit $rc",
            );
            let mut c = Vec::new();
            c.push(owned("sh"));
            c.push(owned("-c"));
            c.push(string_of(&w));
            assert(strings_view(c@) =~= seq!["sh"@, "-c"@, pre_run_wrapper(trim(s@))]);
            Some(c)
        },
    }
}

/// The command to run: the command line's arguments as given, or a login
/// shell (`sh -l`) when there are none.
pub fn user_command(cmd_args: &Vec<String>) -> (r: Vec<String>)
    ensures
        strings_view(r@) == if cmd_args@.len() == 0 {
            seq!["sh"@, "-l"@]
        } else {
            strings_view(cmd_args@)
        },
{
    if cmd_args.len() == 0 {
        let mut c = Vec::new();
        c.push(owned("sh"));
        c.push(owned("-l"));
        assert(strings_view(c@) =~= seq!["sh"@, "-l"@]);
        c
    } else {
        copy_strings(cmd_args)
    }
}

/// The worktree branch: `{name}` in the template (default
/// `celily/{name}`) replaced with the worktree name.
pub fn branch_name(template: &Option<String>, worktree_name: &str) -> (r: String)
    ensures
        r@ == replace_all(
            match template {
                Some(t) => t@,
                None => "celily/{name}"@,
            },
            "{name}"@,
            worktree_name@,
        ),
{
    let t = match template {
        Some(t) => chars_of(t.as_str()),
        None => chars_of("celily/{name}"),
    };
    let pat = chars_of("{name}");
    let rep = chars_of(worktree_name);
    proof {
        reveal_strlit("{name}");
    }
    let v = replace_all_chars(&t, &pat, &rep);
    string_of(&v)
}

/// Whether worktree mode auto-commits: the configuration (default on)
/// unless `--no-auto-commit`.
pub fn auto_commit_enabled(wc: &WorktreeConfig, no_auto_commit: bool) -> (r: bool)
    ensures
        r == (wc.auto_commit != Some(false) && !no_auto_commit),
{
    let configured = match wc.auto_commit {
        Some(b) => b,
        None => true,
    };
    configured && !no_auto_commit
}

/// The variables worktree mode adds: the git identity as author and
/// committer, and the worktree parameters the init script reads.
pub fn add_worktree_env(
    env: &mut EnvMap,
    git_name: &str,
    git_email: &str,
    branch: &str,
    worktree_name: &str,
    project_dir: &str,
    instance_name: &str,
    auto_commit: bool,
)
    ensures
        final(env)@ == old(env)@.insert("GIT_AUTHOR_NAME"@, git_name@).insert(
            "GIT_AUTHOR_EMAIL"@,
            git_email@,
        ).insert("GIT_COMMITTER_NAME"@, git_name@).insert("GIT_COMMITTER_EMAIL"@, git_email@).insert(
            "CELILY_WORKTREE_BRANCH"@,
            branch@,
        ).insert("CELILY_WORKTREE_NAME"@, worktree_name@).insert(
            "CELILY_WORKTREE_PROJECT"@,
            project_dir@,
        ).insert("CELILY_WORKTREE_INSTANCE"@, instance_name@).insert(
            "CELILY_WORKTREE_AUTO_COMMIT"@,
            if auto_commit { "1"@ } else { "0"@ },
        ),
{
    env.insert(owned("GIT_AUTHOR_NAME"), owned(git_name));
    env.insert(owned("GIT_AUTHOR_EMAIL"), owned(git_email));
    env.insert(owned("GIT_COMMITTER_NAME"), owned(git_name));
    env.insert(owned("GIT_COMMITTER_EMAIL"), owned(git_email));
    env.insert(owned("CELILY_WORKTREE_BRANCH"), owned(branch));
    env.insert(owned("CELILY_WORKTREE_NAME"), owned(worktree_name));
    env.insert(owned("CELILY_WORKTREE_PROJECT"), owned(project_dir));
    env.insert(owned("CELILY_WORKTREE_INSTANCE"), owned(instance_name));
    let flag = if auto_commit { "1" } else { "0" };
    env.insert(owned("CELILY_WORKTREE_AUTO_COMMIT"), owned(flag));
}

/// The full worktree-mode command: `sh -c <init script> -- <command...>`.
pub fn worktree_command(init_script: &str, command: &Vec<String>) -> (r: Vec<String>)
    ensures
        strings_view(r@) == seq!["sh"@, "-c"@, init_script@, "--"@] + strings_view(command@),
{
    let mut c = Vec::new();
    c.push(owned("sh"));
    c.push(owned("-c"));
    c.push(owned(init_script));
    c.push(owned("--"));
    let ghost head = c@;
    let mut i: usize = 0;
    while i < command.len()
        invariant
            i <= command@.len(),
            strings_view(c@) == seq!["sh"@, "-c"@, init_script@, "--"@] + strings_view(command@).take(
                i as int,
            ),
            c@.len() == 4 + i,
        decreases command@.len() - i,
    {
        let ghost before = c@;
        let x = command[i].clone();
        c.push(x);
        proof {
            let h = seq!["sh"@, "-c"@, init_script@, "--"@];
            let want = h + strings_view(command@).take(i + 1);
            assert forall|k: int| 0 <= k < c@.len() implies strings_view(c@)[k] == want[k] by {
                if k < 4 + i {
                    assert(c@[k] == before[k]);
                    assert(strings_view(before)[k] == (h + strings_view(command@).take(i as int))[k]);
                } else {
                    assert(c@[k]@ == command@[i as int]@);
                }
            }
            assert(strings_view(c@) =~= want);
        }
        i = i + 1;
    }
    assert(strings_view(command@).take(command@.len() as int) =~= strings_view(command@));
    c
}

/// Outside worktree mode, a read-only project asks git not to take
/// optional locks (`GIT_OPTIONAL_LOCKS=0`).
pub fn add_readonly_env(env: &mut EnvMap, effective_readonly: bool)
    ensures
        final(env)@ == if effective_readonly {
            old(env)@.insert("GIT_OPTIONAL_LOCKS"@, "0"@)
        } else {
            old(env)@
        },
{
    if effective_readonly {
        env.insert(owned("GIT_OPTIONAL_LOCKS"), owned("0"));
    }
}

} // verus!
