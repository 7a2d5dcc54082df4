//! Command-line arguments.

use vstd::prelude::*;
use crate::mount::{AccessMode, Mount, access_mode_named};
use crate::strings::{chars_of, push_str, slice_chars, string_of};

verus! {

/// The command-line arguments of `celily`.
#[derive(Debug)]
pub struct Args {
    /// Image name to launch [default from config, then "celily"]
    pub image: Option<String>,
    /// Override the generated instance name
    pub name: Option<String>,
    /// Keep the instance after exit (implies non-ephemeral)
    pub keep_instance: bool,
    /// Run as a VM instead of a container [default from config, then false]
    pub vm: bool,
    /// Mount a host directory into the container: SOURCE:TARGET[:readwrite|readonly]
    pub cli_mounts: Vec<Mount>,
    /// CPU limit [default from limits.cpu, then 2]
    pub cpu: Option<u32>,
    /// Memory limit, e.g. 4GiB [default from limits.memory, then "4GiB"]
    pub memory: Option<String>,
    /// Root disk size, e.g. 4GiB [default from limits.disk, then "4GiB"]
    pub disk: Option<String>,
    /// Maximum number of processes, -1 for unlimited [default from
    /// limits.processes, then 1024]
    pub processes: Option<i32>,
    /// User to exec as inside the container [default from config, then "dev"]
    pub user: Option<String>,
    /// Exec as root (uid 0) instead of the configured user
    pub root: bool,
    /// UID of the non-root user inside the container, used for idmaps
    pub container_uid: Option<u32>,
    /// GID of the non-root user's primary group inside the container
    pub container_gid: Option<u32>,
    /// Set an environment variable in the container (KEY=VALUE, repeatable)
    pub cli_env: Vec<String>,
    /// Forward a host environment variable into the container (repeatable)
    pub cli_pass_env: Vec<String>,
    /// Target path for the project bind-mount inside the container
    pub project_target: Option<String>,
    /// Use the named profile
    pub profile: Option<String>,
    /// Skip profile auto-detection; use only the default config
    pub no_profile: bool,
    /// Arguments to run inside the container (pass after --)
    pub cmd_args: Vec<String>,
    /// Enable worktree mode with the given name
    pub worktree: Option<String>,
    /// Disable the safety-net auto-commit for this run
    pub no_auto_commit: bool,
    /// Override git user.name for auto-commits
    pub worktree_user_name: Option<String>,
    /// Override git user.email for auto-commits
    pub worktree_user_email: Option<String>,
    /// Mount the project directory into the container
    pub mount_project: bool,
    /// Explicitly disable project directory mount (overrides config)
    pub no_mount_project: bool,
    /// Mount the project directory read-only for this invocation
    pub project_readonly: bool,
    /// Explicitly disable read-only project mount (overrides config)
    pub no_project_readonly: bool,
}

/// Position of the first `c` in `s`.
pub open spec fn find_char(s: Seq<char>, c: char) -> Option<int>
    decreases s.len(),
{
    if s.len() == 0 {
        None
    } else if s[0] == c {
        Some(0)
    } else {
        match find_char(s.drop_first(), c) {
            Some(i) => Some(i + 1),
            None => None,
        }
    }
}

pub(crate) proof fn lemma_find_char(s: Seq<char>, c: char, k: int)
    requires
        0 <= k <= s.len(),
        forall|j: int| 0 <= j < k ==> s[j] != c,
        k == s.len() || s[k] == c,
    ensures
        find_char(s, c) == (if k == s.len() {
            None::<int>
        } else {
            Some(k)
        }),
    decreases s.len(),
{
    if s.len() > 0 && k > 0 {
        lemma_find_char(s.drop_first(), c, k - 1);
    }
}

pub(crate) fn find_char_from(s: &Vec<char>, c: char, from: usize) -> (r: usize)
    requires
        from <= s.len(),
    ensures
        from <= r <= s.len(),
        r == s.len() || s@[r as int] == c,
        forall|j: int| from <= j < r ==> s@[j] != c,
{
    let mut i = from;
    while i < s.len() && s[i] != c
        invariant
            from <= i <= s.len(),
            forall|j: int| from <= j < i ==> s@[j] != c,
        decreases s.len() - i,
    {
        i = i + 1;
    }
    i
}

/// The message for a mount argument without a target.
pub open spec fn mount_syntax_message(s: Seq<char>) -> Seq<char> {
    "expected 'source:target[:readwrite|readonly]', got '"@ + s + "'"@
}

/// The message for an unknown mount flag.
pub open spec fn mount_flag_message() -> Seq<char> {
    "invalid mount flag: Matching variant not found"@
}

/// What `SOURCE:TARGET[:FLAG]` means: split at the first two `:` (the flag
/// keeps any further `:`), no flag meaning read-only.
pub open spec fn parsed_mount(s: Seq<char>) -> Result<(Seq<char>, Seq<char>, AccessMode), Seq<char>> {
    match find_char(s, ':') {
        None => Err(mount_syntax_message(s)),
        Some(i) => {
            let rest = s.skip(i + 1);
            match find_char(rest, ':') {
                None => Ok((s.take(i), rest, AccessMode::ReadOnly)),
                Some(j) => match access_mode_named(rest.skip(j + 1)) {
                    Some(m) => Ok((s.take(i), rest.take(j), m)),
                    None => Err(mount_flag_message()),
                },
            }
        },
    }
}

/// Parse a `--mount` argument of the form `SOURCE:TARGET[:readwrite|readonly]`.
pub fn parse_cli_mount(s: &str) -> (r: Result<Mount, String>)
    ensures
        match r {
            Ok(m) => parsed_mount(s@) == Ok::<(Seq<char>, Seq<char>, AccessMode), Seq<char>>(
                (m.source@, m.target@, m.access),
            ),
            Err(e) => parsed_mount(s@) == Err::<(Seq<char>, Seq<char>, AccessMode), Seq<char>>(
                e@,
            ),
        },
{
    let v = chars_of(s);
    let i = find_char_from(&v, ':', 0);
    proof {
        lemma_find_char(v@, ':', i as int);
    }
    if i == v.len() {
        let mut m = Vec::new();
        push_str(&mut m, "expected 'source:target[:readwrite|readonly]', got '");
        push_str(&mut m, s);
        push_str(&mut m, "'");
        return Err(string_of(&m));
    }
    let j = find_char_from(&v, ':', i + 1);
    let ghost rest = v@.skip(i + 1);
    proof {
        assert forall|k: int| 0 <= k < j - (i + 1) implies rest[k] != ':' by {
            assert(rest[k] == v@[i + 1 + k]);
        }
        lemma_find_char(rest, ':', j - (i + 1));
    }
    let source = slice_chars(&v, 0, i);
    assert(source@ == v@.take(i as int));
    if j == v.len() {
        let target = slice_chars(&v, i + 1, v.len());
        assert(target@ == rest);
        return Ok(Mount { source: string_of(&source), target: string_of(&target), access: AccessMode::ReadOnly });
    }
    let target = slice_chars(&v, i + 1, j);
    assert(target@ == rest.take(j - (i + 1)));
    let flag = slice_chars(&v, j + 1, v.len());
    assert(flag@ == rest.skip(j - (i + 1) + 1));
    let flag_s = string_of(&flag);
    match AccessMode::parse(flag_s.as_str()) {
        Some(access) => Ok(Mount { source: string_of(&source), target: string_of(&target), access }),
        None => {
            let mut m = Vec::new();
            push_str(&mut m, "invalid mount flag: Matching variant not found");
            Err(string_of(&m))
        },
    }
}

} // verus!
