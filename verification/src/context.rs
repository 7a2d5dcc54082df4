//! Resolving the command line, the configuration and what the host reports
//! into everything a run needs.
//!
//! Resolution happens in two steps. [`resolve_settings`] decides everything
//! that follows from the arguments and the configuration alone, including
//! the mounts to validate. The caller then inspects the host (canonical
//! paths, environment variables) and hands the findings to
//! [`resolve_context`], which validates the mounts and finishes the run.

use vstd::prelude::*;
use crate::cli::{Args, find_char, find_char_from, lemma_find_char};
use crate::config::{Config, ConfigError};
use crate::config::network::ConfigNetworkRule;
use crate::envmap::EnvMap;
use crate::instance::InstanceKind;
use crate::mount::{AccessMode, Mount, same_mount, same_mounts};
use crate::network::rule::NetworkRule;
use crate::path::{expand_container_tilde, expand_host_tilde, expand_tilde, join, join_path};
use crate::strings::{
    chars_of, copy_strings, decimal, decimal_chars, opt_view, owned, push_chars, push_str, string_of, strings_view,
};
use crate::username::{is_valid_username, valid_username};
use crate::validate::{
    Forbidden, ForbiddenError, MountError, MountVerdict, Resolved, error_matches, find_violation,
    first_violation, mount_forbidden_list, mount_verdict, validate_mount_source, violation,
};
use crate::naming::{instance_name, instance_name_text};
use crate::path::{under_or_eq, is_under_or_eq};
use crate::config::network::{quota_outcome};

verus! {

// ---------------------------------------------------------------------------
// Errors
// ---------------------------------------------------------------------------

/// Why a run cannot be resolved.
#[derive(Debug)]
pub enum ContextError {
    /// The user name is not a valid POSIX user name (and `--root` is off).
    InvalidUsername { name: String },
    /// The configuration directory could not be canonicalized.
    ConfigDir { path: String, reason: String },
    /// A mount source was rejected.
    Mount { error: MountError },
    /// A `--env` value without `=`.
    InvalidEnv { value: String },
    /// A network rule of the configuration is not acceptable.
    Network { config_error: ConfigError },
    /// The project's `.git` could not be canonicalized.
    GitUnresolvable { path: String, reason: String },
    /// The project's `.git` resolves to a forbidden path.
    GitForbidden { forbidden_error: ForbiddenError },
    /// The project's `.git` resolves outside the home directory.
    GitOutsideHome { path: String, home: String },
    /// The project's `.git` resolves outside the project directory.
    GitOutsideProject { path: String },
}

impl ContextError {
    /// The error text.
    pub fn message(&self) -> (r: String)
        ensures
            match self {
                ContextError::InvalidUsername { name } => r@ == "invalid username '"@ + name@
                    + "': must match [a-z_][a-z0-9_-]* and be <=32 characters"@,
                ContextError::ConfigDir { path, reason } => r@
                    == "cannot canonicalize config directory "@ + path@ + ": "@ + reason@,
                ContextError::InvalidEnv { value } => r@ == "invalid --env value '"@ + value@
                    + "', expected KEY=VALUE"@,
                ContextError::GitUnresolvable { path, reason } => r@ == "cannot resolve .git path: "@
                    + path@ + ": "@ + reason@,
                ContextError::GitOutsideHome { path, home } => r@ == "cannot mount .git overlay: "@
                    + path@ + " is not under "@ + home@,
                ContextError::GitOutsideProject { path } => r@ == "cannot mount .git overlay: "@
                    + path@ + " resolves outside the project directory"@,
                _ => true,
            },
    {
        let mut v = Vec::new();
        match self {
            ContextError::InvalidUsername { name } => {
                push_str(&mut v, "invalid username '");
                push_str(&mut v, name.as_str());
                push_str(&mut v, "': must match [a-z_][a-z0-9_-]* and be <=32 characters");
            },
            ContextError::ConfigDir { path, reason } => {
                push_str(&mut v, "cannot canonicalize config directory ");
                push_str(&mut v, path.as_str());
                push_str(&mut v, ": ");
                push_str(&mut v, reason.as_str());
            },
            ContextError::Mount { error } => {
                let m = error.message();
                push_str(&mut v, m.as_str());
            },
            ContextError::InvalidEnv { value } => {
                push_str(&mut v, "invalid --env value '");
                push_str(&mut v, value.as_str());
                push_str(&mut v, "', expected KEY=VALUE");
            },
            ContextError::Network { config_error } => {
                let m = config_error.message();
                push_str(&mut v, m.as_str());
            },
            ContextError::GitUnresolvable { path, reason } => {
                push_str(&mut v, "cannot resolve .git path: ");
                push_str(&mut v, path.as_str());
                push_str(&mut v, ": ");
                push_str(&mut v, reason.as_str());
            },
            ContextError::GitForbidden { forbidden_error } => {
                push_str(&mut v, "cannot mount .git overlay: ");
                let m = forbidden_error.message();
                push_str(&mut v, m.as_str());
            },
            ContextError::GitOutsideHome { path, home } => {
                push_str(&mut v, "cannot mount .git overlay: ");
                push_str(&mut v, path.as_str());
                push_str(&mut v, " is not under ");
                push_str(&mut v, home.as_str());
            },
            ContextError::GitOutsideProject { path } => {
                push_str(&mut v, "cannot mount .git overlay: ");
                push_str(&mut v, path.as_str());
                push_str(&mut v, " resolves outside the project directory");
            },
        }
        string_of(&v)
    }
}

// ---------------------------------------------------------------------------
// Precedence
// ---------------------------------------------------------------------------

/// The command line's value, else the configuration's, else `default`.
pub open spec fn text_or(cli: Option<String>, cfg: Option<String>, default: Seq<char>) -> Seq<char> {
    match cli {
        Some(x) => x@,
        None => match cfg {
            Some(y) => y@,
            None => default,
        },
    }
}

/// The command line's value, else the configuration's, else `default`.
pub open spec fn value_or<T>(cli: Option<T>, cfg: Option<T>, default: T) -> T {
    match cli {
        Some(x) => x,
        None => match cfg {
            Some(y) => y,
            None => default,
        },
    }
}

fn pick_text(cli: &Option<String>, cfg: &Option<String>, default: &str) -> (r: String)
    ensures
        r@ == text_or(*cli, *cfg, default@),
{
    match cli {
        Some(x) => x.clone(),
        None => match cfg {
            Some(y) => y.clone(),
            None => owned(default),
        },
    }
}

fn pick_value<T: Copy>(cli: Option<T>, cfg: Option<T>, default: T) -> (r: T)
    ensures
        r == value_or(cli, cfg, default),
{
    match cli {
        Some(x) => x,
        None => match cfg {
            Some(y) => y,
            None => default,
        },
    }
}

// ---------------------------------------------------------------------------
// Settings
// ---------------------------------------------------------------------------

/// Everything that follows from the arguments and the configuration alone.
#[derive(Debug)]
pub struct Settings {
    pub image: String,
    pub kind: InstanceKind,
    pub cpu: u32,
    pub memory: String,
    pub disk: String,
    pub processes: i32,
    pub disk_priority: Option<u32>,
    pub memory_enforce: Option<String>,
    pub network_ingress: Option<String>,
    pub network_egress: Option<String>,
    pub exec_uid: u32,
    pub exec_gid: u32,
    pub container_uid: u32,
    pub container_gid: u32,
    pub user_name: String,
    pub container_home: String,
    pub project_target: String,
    /// Where commands run: the project target when the project is
    /// mounted, else the container home.
    pub project_dir: String,
    pub raw_idmap: Option<String>,
    pub worktree_enabled: bool,
    pub mount_project: bool,
    pub effective_readonly: bool,
    /// The mounts to validate, in order: the project (when mounted), the
    /// configuration's, then the command line's.
    pub mounts: Vec<Mount>,
    pub ephemeral: bool,
    pub description: String,
    pub network_dns: bool,
    pub security_nesting: bool,
    pub secure_boot: bool,
    pub notifications: bool,
    /// The host variables to forward: the configuration's, then the
    /// command line's.
    pub pass_env: Vec<String>,
}

/// The user the commands run as inside the container.
pub open spec fn user_name_of(args: Args, cfg: Config) -> Seq<char> {
    text_or(args.user, cfg.user, "dev"@)
}

/// `/root` for `--root`, else `/home/<user>`.
pub open spec fn container_home_of(root: bool, user: Seq<char>) -> Seq<char> {
    if root {
        "/root"@
    } else {
        "/home/"@ + user
    }
}

/// The id map of a container: the host user and group mapped to the
/// container's.
pub open spec fn idmap_text(host_uid: u32, host_gid: u32, uid: u32, gid: u32) -> Seq<char> {
    "uid "@ + decimal(host_uid as nat) + " "@ + decimal(uid as nat) + "\ngid "@ + decimal(
        host_gid as nat,
    ) + " "@ + decimal(gid as nat)
}

/// Whether the project directory is mounted: always in worktree mode,
/// else `--mount-project`, else the configuration unless
/// `--no-mount-project`.
pub open spec fn mount_project_of(args: Args, cfg: Config) -> bool {
    args.worktree is Some || args.mount_project || (!args.no_mount_project && cfg.mount_project
        == Some(true))
}

/// Whether the project mount is read-only: always in worktree mode, else
/// `--project-readonly`, else the configuration unless
/// `--no-project-readonly`.
pub open spec fn readonly_of(args: Args, cfg: Config) -> bool {
    args.worktree is Some || args.project_readonly || (!args.no_project_readonly
        && cfg.project_readonly == Some(true))
}

/// A mount with `~` expanded on both sides.
pub open spec fn expanded(m: Mount, home: Seq<char>, container_home: Seq<char>, e: Mount) -> bool {
    &&& e.source@ == expand_tilde(m.source@, home)
    &&& e.target@ == expand_tilde(m.target@, container_home)
    &&& e.access == m.access
}

/// `out` is `ms` with `~` expanded on both sides of each mount.
pub open spec fn all_expanded(ms: Seq<Mount>, home: Seq<char>, container_home: Seq<char>, out: Seq<Mount>) -> bool {
    &&& out.len() == ms.len()
    &&& forall|i: int| 0 <= i < ms.len() ==> expanded(#[trigger] ms[i], home, container_home, out[i])
}

fn expand_mounts(ms: &Vec<Mount>, home: &str, container_home: &str, out: &mut Vec<Mount>)
    ensures
        final(out)@.len() == old(out)@.len() + ms@.len(),
        final(out)@.take(old(out)@.len() as int) == old(out)@,
        all_expanded(ms@, home@, container_home@, final(out)@.skip(old(out)@.len() as int)),
{
    let ghost start = out@;
    let mut i: usize = 0;
    while i < ms.len()
        invariant
            i <= ms@.len(),
            out@.len() == start.len() + i,
            out@.take(start.len() as int) == start,
            forall|j: int|
                0 <= j < i ==> expanded(#[trigger] ms@[j], home@, container_home@, out@[start.len() + j]),
        decreases ms@.len() - i,
    {
        let m = &ms[i];
        let e = Mount {
            source: expand_host_tilde(m.source.as_str(), home),
            target: expand_container_tilde(m.target.as_str(), container_home),
            access: m.access,
        };
        let ghost before = out@;
        out.push(e);
        proof {
            assert forall|j: int| 0 <= j < i + 1 implies expanded(
                #[trigger] ms@[j],
                home@,
                container_home@,
                out@[start.len() + j],
            ) by {
                if j < i {
                    assert(out@[start.len() + j] == before[start.len() + j]);
                }
            }
            assert(out@.take(start.len() as int) =~= start);
        }
        i = i + 1;
    }
    proof {
        let tail = out@.skip(start.len() as int);
        assert forall|j: int| 0 <= j < ms@.len() implies expanded(
            #[trigger] ms@[j],
            home@,
            container_home@,
            tail[j],
        ) by {
            assert(tail[j] == out@[start.len() + j]);
        }
    }
}

/// The mounts to validate: the project directory at the project target
/// (read-only for now) when it is mounted, then the configuration's mounts
/// and the command line's, each with `~` expanded on the host side
/// against `home` and on the container side against the container home.
pub open spec fn planned_mounts(
    mount_project: bool,
    cwd: Seq<char>,
    project_target: Seq<char>,
    cfg_mounts: Seq<Mount>,
    cli_mounts: Seq<Mount>,
    home: Seq<char>,
    container_home: Seq<char>,
    out: Seq<Mount>,
) -> bool {
    let k: int = if mount_project { 1 } else { 0 };
    &&& out.len() == k + cfg_mounts.len() + cli_mounts.len()
    &&& mount_project ==> {
        &&& out[0].source@ == cwd
        &&& out[0].target@ == project_target
        &&& out[0].access == AccessMode::ReadOnly
    }
    &&& all_expanded(cfg_mounts, home, container_home, out.subrange(k, k + cfg_mounts.len()))
    &&& all_expanded(cli_mounts, home, container_home, out.skip(k + cfg_mounts.len()))
}

/// `s` is what [`resolve_settings`] decides for these arguments,
/// configuration, working directory, home and host ids.
pub open spec fn settings_resolved(
    args: Args,
    cfg: Config,
    cwd: Seq<char>,
    home: Seq<char>,
    host_uid: u32,
    host_gid: u32,
    s: Settings,
) -> bool {
    &&& valid_username(user_name_of(args, cfg)) || args.root
    &&& s.image@ == text_or(args.image, cfg.image, "celily"@)
    &&& s.kind == (if args.vm {
        InstanceKind::Vm
    } else {
        value_or(None, cfg.kind, InstanceKind::Container)
    })
    &&& s.cpu == value_or(args.cpu, cfg.limits.cpu, 2u32)
    &&& s.memory@ == text_or(args.memory, cfg.limits.memory, "4GiB"@)
    &&& s.disk@ == text_or(args.disk, cfg.limits.disk, "4GiB"@)
    &&& s.processes == value_or(args.processes, cfg.limits.processes, 1024i32)
    &&& s.disk_priority == cfg.limits.disk_priority
    &&& opt_view(s.memory_enforce) == opt_view(cfg.limits.memory_enforce)
    &&& opt_view(s.network_ingress) == opt_view(cfg.limits.network_ingress)
    &&& opt_view(s.network_egress) == opt_view(cfg.limits.network_egress)
    &&& s.container_uid == value_or(args.container_uid, cfg.container_uid, 1000u32)
    &&& s.container_gid == value_or(args.container_gid, cfg.container_gid, 1000u32)
    &&& s.exec_uid == (if args.root { 0 } else { s.container_uid })
    &&& s.exec_gid == (if args.root { 0 } else { s.container_gid })
    &&& s.user_name@ == user_name_of(args, cfg)
    &&& s.container_home@ == container_home_of(args.root, s.user_name@)
    &&& s.project_target@ == expand_tilde(
        text_or(args.project_target, cfg.project_target, "~/project"@),
        s.container_home@,
    )
    &&& s.raw_idmap == None::<String> <==> s.kind == InstanceKind::Vm
    &&& s.kind == InstanceKind::Container ==> (s.raw_idmap matches Some(m) && m@
        == idmap_text(host_uid, host_gid, s.container_uid, s.container_gid))
    &&& s.worktree_enabled == args.worktree is Some
    &&& s.mount_project == mount_project_of(args, cfg)
    &&& s.effective_readonly == readonly_of(args, cfg)
    &&& s.project_dir@ == (if s.mount_project {
        s.project_target@
    } else {
        s.container_home@
    })
    &&& planned_mounts(
        s.mount_project,
        cwd,
        s.project_target@,
        cfg.mounts@,
        args.cli_mounts@,
        home,
        s.container_home@,
        s.mounts@,
    )
    &&& s.ephemeral == !args.keep_instance
    &&& s.description@ == "celily run ("@ + s.image@ + " at "@ + cwd + ")"@
    &&& s.network_dns == value_or(None, cfg.network.dns, true)
    &&& s.security_nesting == value_or(None, cfg.security_nesting, false)
    &&& s.secure_boot == value_or(None, cfg.secure_boot, true)
    &&& s.notifications == value_or(None, cfg.notifications, true)
    &&& strings_view(s.pass_env@) == strings_view(cfg.pass_env@) + strings_view(args.cli_pass_env@)
}

/// The settings [`resolve_settings`] decides always fit [`resolve_context`]:
/// worktree mode mounts the project, and a mounted project comes first
/// and read-only.
pub proof fn law_resolved_settings_fit_context(
    args: Args,
    cfg: Config,
    cwd: Seq<char>,
    home: Seq<char>,
    host_uid: u32,
    host_gid: u32,
    s: Settings,
)
    requires
        settings_resolved(args, cfg, cwd, home, host_uid, host_gid, s),
    ensures
        s.worktree_enabled ==> s.mount_project,
        s.mount_project ==> s.mounts@.len() >= 1,
        s.mount_project ==> s.mounts@[0].access == AccessMode::ReadOnly,
{
}

/// Each setting comes from the command line when given there, else from
/// the configuration, else from its default (image `celily`, 2 CPUs,
/// 4GiB of memory and of disk, 1024 processes, uid and gid 1000, user
/// `dev`); `--vm` makes a VM, which gets no id map while a container maps
/// the host user to the container user; `--root` runs commands as root in
/// `/root`; the instance is ephemeral unless kept; and the variables passed
/// through are the configuration's, then the command line's.
pub proof fn law_settings_precedence(
    args: Args,
    cfg: Config,
    cwd: Seq<char>,
    home: Seq<char>,
    host_uid: u32,
    host_gid: u32,
    s: Settings,
)
    requires
        settings_resolved(args, cfg, cwd, home, host_uid, host_gid, s),
    ensures
        args.image matches Some(i) ==> s.image@ == i@,
        args.image is None ==> (cfg.image matches Some(i) ==> s.image@ == i@),
        args.image is None && cfg.image is None ==> s.image@ == "celily"@,
        args.cpu matches Some(c) ==> s.cpu == c,
        args.cpu is None ==> (cfg.limits.cpu matches Some(c) ==> s.cpu == c),
        args.cpu is None && cfg.limits.cpu is None ==> s.cpu == 2,
        args.memory matches Some(m) ==> s.memory@ == m@,
        args.memory is None ==> (cfg.limits.memory matches Some(m) ==> s.memory@ == m@),
        args.memory is None && cfg.limits.memory is None ==> s.memory@ == "4GiB"@,
        args.disk matches Some(m) ==> s.disk@ == m@,
        args.disk is None ==> (cfg.limits.disk matches Some(m) ==> s.disk@ == m@),
        args.disk is None && cfg.limits.disk is None ==> s.disk@ == "4GiB"@,
        args.processes matches Some(n) ==> s.processes == n,
        args.processes is None ==> (cfg.limits.processes matches Some(n) ==> s.processes == n),
        args.processes is None && cfg.limits.processes is None ==> s.processes == 1024,
        args.container_uid matches Some(u) ==> s.container_uid == u,
        args.container_uid is None ==> (cfg.container_uid matches Some(u) ==> s.container_uid == u),
        args.container_uid is None && cfg.container_uid is None ==> s.container_uid == 1000,
        args.container_gid matches Some(g) ==> s.container_gid == g,
        args.container_gid is None ==> (cfg.container_gid matches Some(g) ==> s.container_gid == g),
        args.container_gid is None && cfg.container_gid is None ==> s.container_gid == 1000,
        args.user matches Some(u) ==> s.user_name@ == u@,
        args.user is None ==> (cfg.user matches Some(u) ==> s.user_name@ == u@),
        args.user is None && cfg.user is None ==> s.user_name@ == "dev"@,
        args.vm ==> s.kind == InstanceKind::Vm,
        !args.vm ==> (cfg.kind matches Some(k) ==> s.kind == k),
        !args.vm && cfg.kind is None ==> s.kind == InstanceKind::Container,
        s.kind == InstanceKind::Vm ==> s.raw_idmap is None,
        s.kind == InstanceKind::Container ==> (s.raw_idmap matches Some(m) && m@ == "uid "@ + decimal(
            host_uid as nat,
        ) + " "@ + decimal(s.container_uid as nat) + "\ngid "@ + decimal(host_gid as nat) + " "@ + decimal(
            s.container_gid as nat,
        )),
        args.root ==> s.exec_uid == 0 && s.exec_gid == 0 && s.container_home@ == "/root"@,
        !args.root ==> s.exec_uid == s.container_uid && s.exec_gid == s.container_gid && s.container_home@
            == "/home/"@ + s.user_name@,
        s.ephemeral == !args.keep_instance,
        strings_view(s.pass_env@) == strings_view(cfg.pass_env@) + strings_view(args.cli_pass_env@),
{
}

/// When the project is mounted and when read-only: `--project-readonly`
/// and worktree mode always make it read-only, and the configuration does
/// unless `--no-project-readonly`; nothing else does. Worktree mode and
/// `--mount-project` always mount it, and the configuration does unless
/// `--no-mount-project`; nothing else does. A mounted project is the
/// first mount, from the working directory.
pub proof fn law_project_mount_flags(
    args: Args,
    cfg: Config,
    cwd: Seq<char>,
    home: Seq<char>,
    host_uid: u32,
    host_gid: u32,
    s: Settings,
)
    requires
        settings_resolved(args, cfg, cwd, home, host_uid, host_gid, s),
    ensures
        args.project_readonly ==> s.effective_readonly,
        args.worktree is Some ==> s.effective_readonly && s.mount_project && s.worktree_enabled,
        !args.no_project_readonly && cfg.project_readonly == Some(true) ==> s.effective_readonly,
        s.effective_readonly ==> args.worktree is Some || args.project_readonly || (!args.no_project_readonly
            && cfg.project_readonly == Some(true)),
        args.mount_project ==> s.mount_project,
        !args.no_mount_project && cfg.mount_project == Some(true) ==> s.mount_project,
        s.mount_project ==> args.worktree is Some || args.mount_project || (!args.no_mount_project
            && cfg.mount_project == Some(true)),
        s.mount_project ==> s.mounts@.len() >= 1 && s.mounts@[0].source@ == cwd && s.mounts@[0].target@
            == s.project_target@,
{
}

/// Decide everything that follows from the arguments and configuration.
///
/// Each value comes from the command line when given, else from the
/// configuration, else from its default: image `celily`, 2 CPUs, 4GiB of
/// memory and of disk, 1024 processes, user `dev`, uid and gid 1000, project
/// target `~/project`. A container gets an id map from the host user
/// (`host_uid`, `host_gid`) to the container user; a VM none. Commands run
/// as root with `--root`, else as the container user.
///
/// Fails when the user name is invalid and `--root` is off.
pub fn resolve_settings(
    args: &Args,
    cfg: &Config,
    cwd: &str,
    home: &str,
    host_uid: u32,
    host_gid: u32,
) -> (r: Result<Settings, ContextError>)
    ensures
        match r {
            Err(e) => {
                &&& !valid_username(user_name_of(*args, *cfg)) && !args.root
                &&& e matches ContextError::InvalidUsername { name } && name@ == user_name_of(*args, *cfg)
            },
            Ok(s) => settings_resolved(*args, *cfg, cwd@, home@, host_uid, host_gid, s),
        },
{
    let image = pick_text(&args.image, &cfg.image, "celily");
    let kind = if args.vm {
        InstanceKind::Vm
    } else {
        pick_value(None, cfg.kind, InstanceKind::Container)
    };
    let cpu = pick_value(args.cpu, cfg.limits.cpu, 2u32);
    let memory = pick_text(&args.memory, &cfg.limits.memory, "4GiB");
    let disk = pick_text(&args.disk, &cfg.limits.disk, "4GiB");
    let processes = pick_value(args.processes, cfg.limits.processes, 1024i32);
    let container_uid = pick_value(args.container_uid, cfg.container_uid, 1000u32);
    let container_gid = pick_value(args.container_gid, cfg.container_gid, 1000u32);
    let user_name = pick_text(&args.user, &cfg.user, "dev");
    if !is_valid_username(user_name.as_str()) && !args.root {
        return Err(ContextError::InvalidUsername { name: user_name });
    }
    let exec_uid: u32 = if args.root { 0 } else { container_uid };
    let exec_gid: u32 = if args.root { 0 } else { container_gid };
    let container_home = if args.root {
        owned("/root")
    } else {
        let mut v = Vec::new();
        push_str(&mut v, "/home/");
        push_str(&mut v, user_name.as_str());
        string_of(&v)
    };
    let target_text = pick_text(&args.project_target, &cfg.project_target, "~/project");
    let project_target = expand_container_tilde(target_text.as_str(), container_home.as_str());
    let raw_idmap = match kind {
        InstanceKind::Vm => None,
        InstanceKind::Container => Some(idmap(host_uid, host_gid, container_uid, container_gid)),
    };
    let worktree_enabled = args.worktree.is_some();
    let mount_project = worktree_enabled || args.mount_project || (!args.no_mount_project
        && pick_value(None, cfg.mount_project, false));
    let effective_readonly = worktree_enabled || args.project_readonly || (!args.no_project_readonly
        && pick_value(None, cfg.project_readonly, false));
    let project_dir = if mount_project {
        project_target.clone()
    } else {
        container_home.clone()
    };
    let mut mounts: Vec<Mount> = Vec::new();
    if mount_project {
        mounts.push(
            Mount { source: owned(cwd), target: project_target.clone(), access: AccessMode::ReadOnly },
        );
    }
    let ghost k: int = if mount_project { 1 } else { 0 };
    let ghost m0 = mounts@;
    expand_mounts(&cfg.mounts, home, container_home.as_str(), &mut mounts);
    let ghost m1 = mounts@;
    expand_mounts(&args.cli_mounts, home, container_home.as_str(), &mut mounts);
    proof {
        let m2 = mounts@;
        assert(m1.skip(k) =~= m2.subrange(k, k + cfg.mounts@.len()));
        assert(m2.take(m1.len() as int).skip(k) =~= m1.skip(k));
        assert(m2.skip(m1.len() as int) =~= m2.skip(k + cfg.mounts@.len()));
        if mount_project {
            assert(m2[0] == m1[0]);
            assert(m1[0] == m0[0]);
        }
    }
    let description = {
        let mut v = Vec::new();
        push_str(&mut v, "celily run (");
        push_str(&mut v, image.as_str());
        push_str(&mut v, " at ");
        push_str(&mut v, cwd);
        push_str(&mut v, ")");
        string_of(&v)
    };
    proof {
        reveal_strlit("/root");
        reveal_strlit("/home/");
    }
    let mut pass_env = copy_strings(&cfg.pass_env);
    let cli_pass = copy_strings(&args.cli_pass_env);
    let ghost a = pass_env@;
    let ghost b = cli_pass@;
    crate::config::merge_strategy::append(&mut pass_env, cli_pass);
    proof {
        assert(strings_view(pass_env@) =~= strings_view(a) + strings_view(b));
    }
    Ok(Settings {
        image,
        kind,
        cpu,
        memory,
        disk,
        processes,
        disk_priority: cfg.limits.disk_priority,
        memory_enforce: crate::strings::copy_opt_string(&cfg.limits.memory_enforce),
        network_ingress: crate::strings::copy_opt_string(&cfg.limits.network_ingress),
        network_egress: crate::strings::copy_opt_string(&cfg.limits.network_egress),
        exec_uid,
        exec_gid,
        container_uid,
        container_gid,
        user_name,
        container_home,
        project_target,
        project_dir,
        raw_idmap,
        worktree_enabled,
        mount_project,
        effective_readonly,
        mounts,
        ephemeral: !args.keep_instance,
        description,
        network_dns: pick_value(None, cfg.network.dns, true),
        security_nesting: pick_value(None, cfg.security_nesting, false),
        secure_boot: pick_value(None, cfg.secure_boot, true),
        notifications: pick_value(None, cfg.notifications, true),
        pass_env,
    })
}

/// `uid <host_uid> <uid>\ngid <host_gid> <gid>`.
fn idmap(host_uid: u32, host_gid: u32, uid: u32, gid: u32) -> (r: String)
    ensures
        r@ == idmap_text(host_uid, host_gid, uid, gid),
{
    let mut v = Vec::new();
    push_str(&mut v, "uid ");
    let a = decimal_chars(host_uid as u64);
    push_chars(&mut v, &a);
    push_str(&mut v, " ");
    let b = decimal_chars(uid as u64);
    push_chars(&mut v, &b);
    push_str(&mut v, "\ngid ");
    let c = decimal_chars(host_gid as u64);
    push_chars(&mut v, &c);
    push_str(&mut v, " ");
    let d = decimal_chars(gid as u64);
    push_chars(&mut v, &d);
    string_of(&v)
}

// ---------------------------------------------------------------------------
// Mount validation
// ---------------------------------------------------------------------------

/// The verdict on mount `i`.
pub open spec fn verdict_at(
    sources: Seq<Resolved>,
    i: int,
    home: Seq<char>,
    forbidden: Seq<Forbidden>,
    dirs: Seq<String>,
    files: Seq<String>,
) -> MountVerdict {
    mount_verdict(sources[i], home, forbidden, dirs, files)
}

/// Validate each mount source in order (see
/// [`validate_mount_source`]), given what each resolved to; an accepted
/// mount takes its canonical source. The first rejection stops.
pub fn validate_mounts(
    mounts: Vec<Mount>,
    sources: &Vec<Resolved>,
    home: &str,
    forbidden: &Vec<Forbidden>,
    dirs: &Vec<String>,
    files: &Vec<String>,
) -> (r: Result<Vec<Mount>, MountError>)
    requires
        sources@.len() == mounts@.len(),
    ensures
        match r {
            Ok(out) => {
                &&& out@.len() == mounts@.len()
                &&& forall|i: int|
                    0 <= i < mounts@.len() ==> #[trigger] verdict_at(sources@, i, home@, forbidden@, dirs@, files@) is Allowed
                &&& forall|i: int|
                    0 <= i < mounts@.len() ==> {
                        &&& verdict_at(sources@, i, home@, forbidden@, dirs@, files@) is Allowed
                        &&& sources@[i] matches Resolved::Found { canonical, .. }
                            && (#[trigger] out@[i]).source@ == canonical@
                        &&& out@[i].target@ == mounts@[i].target@
                        &&& out@[i].access == mounts@[i].access
                    }
            },
            Err(e) => exists|i: int|
                0 <= i < mounts@.len() && (forall|j: int|
                    0 <= j < i ==> verdict_at(sources@, j, home@, forbidden@, dirs@, files@) is Allowed)
                    && !(verdict_at(sources@, i, home@, forbidden@, dirs@, files@) is Allowed)
                    && error_matches(
                    e,
                    #[trigger] verdict_at(sources@, i, home@, forbidden@, dirs@, files@),
                    mounts@[i].source@,
                    sources@[i],
                    home@,
                    forbidden@,
                ),
        },
{
    let mut out: Vec<Mount> = Vec::new();
    let mut i: usize = 0;
    while i < mounts.len()
        invariant
            i <= mounts@.len(),
            sources@.len() == mounts@.len(),
            out@.len() == i,
            forall|j: int|
                0 <= j < i ==> #[trigger] verdict_at(sources@, j, home@, forbidden@, dirs@, files@) is Allowed,
            forall|j: int|
                0 <= j < i ==> {
                    &&& verdict_at(sources@, j, home@, forbidden@, dirs@, files@) is Allowed
                    &&& sources@[j] matches Resolved::Found { canonical, .. }
                        && (#[trigger] out@[j]).source@ == canonical@
                    &&& out@[j].target@ == mounts@[j].target@
                    &&& out@[j].access == mounts@[j].access
                },
        decreases mounts@.len() - i,
    {
        let m = &mounts[i];
        match validate_mount_source(
            m.source.as_str(),
            &sources[i],
            home,
            forbidden.as_slice(),
            dirs.as_slice(),
            files.as_slice(),
        ) {
            Ok(c) => {
                let ghost before = out@;
                out.push(Mount { source: c, target: m.target.clone(), access: m.access });
                proof {
                    assert forall|j: int| 0 <= j < i implies #[trigger] out@[j] == before[j] by {}
                }
            },
            Err(e) => {
                proof {
                    assert(verdict_at(sources@, i as int, home@, forbidden@, dirs@, files@) == mount_verdict(
                        sources@[i as int],
                        home@,
                        forbidden@,
                        dirs@,
                        files@,
                    ));
                    assert(forall|j: int|
                        0 <= j < i ==> verdict_at(sources@, j, home@, forbidden@, dirs@, files@) is Allowed);
                }
                return Err(e);
            },
        }
        i = i + 1;
    }
    Ok(out)
}

// ---------------------------------------------------------------------------
// Environment
// ---------------------------------------------------------------------------

/// The static variables with each forwarded host variable that is set
/// added over them, in order.
pub open spec fn with_passed(base: Map<Seq<char>, Seq<char>>, names: Seq<String>, values: Seq<Option<String>>, n: nat) -> Map<
    Seq<char>,
    Seq<char>,
>
    decreases n,
{
    if n == 0 {
        base
    } else {
        let m = with_passed(base, names, values, (n - 1) as nat);
        match values[n - 1] {
            Some(v) => m.insert(names[n - 1]@, v@),
            None => m,
        }
    }
}

/// `KEY=VALUE` split at the first `=`, if there is one.
pub open spec fn split_assignment(s: Seq<char>) -> Option<(Seq<char>, Seq<char>)> {
    match find_char(s, '=') {
        Some(i) => Some((s.take(i), s.skip(i + 1))),
        None => None,
    }
}

/// `m` with the first `n` command-line assignments applied, or the first
/// one without `=`.
pub open spec fn with_assignments(m: Map<Seq<char>, Seq<char>>, cli: Seq<String>, n: nat) -> Result<
    Map<Seq<char>, Seq<char>>,
    int,
>
    decreases n,
{
    if n == 0 {
        Ok(m)
    } else {
        match with_assignments(m, cli, (n - 1) as nat) {
            Err(i) => Err(i),
            Ok(prev) => match split_assignment(cli[n - 1]@) {
                Some((k, v)) => Ok(prev.insert(k, v)),
                None => Err(n - 1),
            },
        }
    }
}

/// The assignment a failure points at is one of those applied.
proof fn lemma_assignment_error_index(m: Map<Seq<char>, Seq<char>>, cli: Seq<String>, n: nat)
    ensures
        with_assignments(m, cli, n) matches Err(i) ==> 0 <= i < n,
    decreases n,
{
    if n > 0 {
        lemma_assignment_error_index(m, cli, (n - 1) as nat);
    }
}

/// The environment of a run: the configuration's static variables, then
/// each forwarded host variable that is set (`values[i]` is the value of
/// `names[i]`), then each `--env KEY=VALUE`, later entries winning. Fails
/// on the first `--env` value without `=`.
pub fn merge_env(
    static_env: &EnvMap,
    names: &Vec<String>,
    values: &Vec<Option<String>>,
    cli_env: &Vec<String>,
) -> (r: Result<EnvMap, ContextError>)
    requires
        names@.len() == values@.len(),
    ensures
        match with_assignments(with_passed(static_env@, names@, values@, names@.len()), cli_env@, cli_env@.len()) {
            Ok(m) => r matches Ok(e) && e@ == m,
            Err(i) => r matches Err(ContextError::InvalidEnv { value }) && value@ == cli_env@[i]@,
        },
{
    let mut env = static_env.copy();
    let mut i: usize = 0;
    while i < names.len()
        invariant
            i <= names@.len(),
            names@.len() == values@.len(),
            env@ == with_passed(static_env@, names@, values@, i as nat),
        decreases names@.len() - i,
    {
        match &values[i] {
            Some(v) => env.insert(names[i].clone(), v.clone()),
            None => {},
        }
        i = i + 1;
    }
    let ghost base = env@;
    let mut j: usize = 0;
    while j < cli_env.len()
        invariant
            j <= cli_env@.len(),
            names@.len() == values@.len(),
            base == with_passed(static_env@, names@, values@, names@.len()),
            with_assignments(base, cli_env@, j as nat) == Ok::<Map<Seq<char>, Seq<char>>, int>(env@),
        decreases cli_env@.len() - j,
    {
        let c = chars_of(cli_env[j].as_str());
        let k = find_char_from(&c, '=', 0);
        proof {
            lemma_find_char(c@, '=', k as int);
        }
        if k == c.len() {
            proof {
                assert(c@ == cli_env@[j as int]@);
                assert(split_assignment(cli_env@[j as int]@) is None);
                lemma_assignments_stop(base, cli_env@, j as nat, cli_env@.len());
            }
            return Err(ContextError::InvalidEnv { value: cli_env[j].clone() });
        }
        let key = crate::strings::slice_chars(&c, 0, k);
        let value = crate::strings::slice_chars(&c, k + 1, c.len());
        proof {
            assert(c@ == cli_env@[j as int]@);
            assert(value@ =~= c@.skip(k + 1));
            assert(key@ =~= c@.take(k as int));
        }
        env.insert(string_of(&key), string_of(&value));
        j = j + 1;
    }
    Ok(env)
}

/// Once an assignment fails, later ones do not change the outcome.
proof fn lemma_assignments_stop(m: Map<Seq<char>, Seq<char>>, cli: Seq<String>, j: nat, n: nat)
    requires
        j < n,
        with_assignments(m, cli, j) is Ok,
        split_assignment(cli[j as int]@) is None,
    ensures
        with_assignments(m, cli, n) == Err::<Map<Seq<char>, Seq<char>>, int>(j as int),
    decreases n,
{
    if n > j + 1 {
        lemma_assignments_stop(m, cli, j, (n - 1) as nat);
    }
}

// ---------------------------------------------------------------------------
// Network rules
// ---------------------------------------------------------------------------

/// Why a configured rule cannot be used, if it cannot: only a quota can be
/// wrong.
pub open spec fn rule_problem(r: ConfigNetworkRule) -> Option<Seq<char>> {
    match r {
        ConfigNetworkRule::Http { quota: Some(q), .. } => match quota_outcome(q) {
            Err(m) => Some(m),
            Ok(_) => None,
        },
        _ => None,
    }
}

/// `out` is the library form of `r`: the same fields, the quota validated.
pub open spec fn converts(r: ConfigNetworkRule, out: NetworkRule) -> bool {
    match r {
        ConfigNetworkRule::Http { host, path_prefixes, auth, headers, methods, quota } => match quota {
            Some(q) => match quota_outcome(q) {
                Ok(lq) => out == NetworkRule::Http { host, path_prefixes, auth, headers, methods, quota: Some(lq) },
                Err(_) => false,
            },
            None => out == NetworkRule::Http { host, path_prefixes, auth, headers, methods, quota: None },
        },
        ConfigNetworkRule::Tcp { host, ports } => out == NetworkRule::Tcp { host, ports },
    }
}

/// Convert each configured rule, in order; the first unusable one stops.
pub fn convert_rules(rules: Vec<ConfigNetworkRule>) -> (r: Result<Vec<NetworkRule>, ConfigError>)
    ensures
        match r {
            Ok(out) => out@.len() == rules@.len() && forall|i: int|
                0 <= i < rules@.len() ==> converts(rules@[i], #[trigger] out@[i]),
            Err(e) => exists|i: int|
                0 <= i < rules@.len() && (forall|j: int| 0 <= j < i ==> rule_problem(rules@[j]) is None)
                    && (#[trigger] rule_problem(rules@[i]) matches Some(m) && e matches ConfigError::Validation(t) && t@ == m),
        },
{
    let ghost orig = rules@;
    let n = rules.len();
    let mut rest = rules;
    let mut out: Vec<NetworkRule> = Vec::new();
    // Take the rules from the back, then restore the order.
    let mut rev: Vec<ConfigNetworkRule> = Vec::new();
    while rest.len() > 0
        invariant
            orig == rules@,
            orig.len() == n,
            rest@.len() + rev@.len() == orig.len(),
            rest@ == orig.take(rest@.len() as int),
            forall|k: int| 0 <= k < rev@.len() ==> #[trigger] rev@[k] == orig[orig.len() - 1 - k],
        decreases rest@.len(),
    {
        let x = rest.pop().unwrap();
        let ghost before = rev@;
        rev.push(x);
        proof {
            assert forall|k: int| 0 <= k < rev@.len() implies #[trigger] rev@[k] == orig[orig.len() - 1 - k] by {
                if k < before.len() {
                    assert(rev@[k] == before[k]);
                }
            }
        }
    }
    let mut i: usize = 0;
    while rev.len() > 0
        invariant
            orig == rules@,
            orig.len() == n,
            i + rev@.len() == orig.len(),
            forall|k: int| 0 <= k < rev@.len() ==> #[trigger] rev@[k] == orig[orig.len() - 1 - k],
            out@.len() == i,
            forall|k: int| 0 <= k < i ==> converts(orig[k], #[trigger] out@[k]),
            forall|k: int| 0 <= k < i ==> rule_problem(#[trigger] orig[k]) is None,
        decreases rev@.len(),
    {
        let x = rev.pop().unwrap();
        proof {
            assert(x == orig[i as int]);
        }
        match x.into_library() {
            Ok(lr) => {
                let ghost before = out@;
                out.push(lr);
                proof {
                    assert forall|k: int| 0 <= k < i + 1 implies converts(orig[k], #[trigger] out@[k]) by {
                        if k < i {
                            assert(out@[k] == before[k]);
                        }
                    }
                }
            },
            Err(e) => {
                proof {
                    assert(rule_problem(orig[i as int]) is Some);
                }
                return Err(e);
            },
        }
        i = i + 1;
    }
    Ok(out)
}

// ---------------------------------------------------------------------------
// Worktree overlay
// ---------------------------------------------------------------------------

/// The error an entry reports.
fn error_of(f: &Forbidden) -> (r: ForbiddenError)
    ensures
        r == violation(*f),
{
    match f {
        Forbidden::Exact { label, .. } => ForbiddenError::Exact { label: *label },
        Forbidden::Subtree { label, .. } => ForbiddenError::Subtree { label: *label },
    }
}

/// The project mount in worktree mode: the project read-only, with its
/// `.git` (canonical `git`) mounted read-write over it at
/// `<project target>/.git`, second in the list so that it applies after.
pub open spec fn with_git_overlay(mounts: Seq<Mount>, git: Seq<char>, project_target: Seq<char>, out: Seq<Mount>) -> bool {
    &&& out.len() == mounts.len() + 1
    &&& out[0].source@ == mounts[0].source@
    &&& out[0].target@ == mounts[0].target@
    &&& out[0].access == AccessMode::ReadOnly
    &&& out[1].source@ == git
    &&& out[1].target@ == join(project_target, ".git"@)
    &&& out[1].access == AccessMode::ReadWrite
    &&& forall|i: int| 1 <= i < mounts.len() ==> #[trigger] out[i + 1] == mounts[i]
}

/// Overlay the project's `.git` read-write on the read-only project mount
/// (the first of `mounts`). `git_canon` is what canonicalizing
/// `git_source` gave. The `.git` must resolve, match no forbidden entry,
/// and lie under both the home directory and the (canonical) project
/// directory, so that a symbolic link cannot smuggle another path in.
pub fn git_overlay(
    mounts: Vec<Mount>,
    git_source: &str,
    git_canon: &Result<String, String>,
    forbidden: &Vec<Forbidden>,
    home_canon: &str,
    project_target: &str,
) -> (r: Result<Vec<Mount>, ContextError>)
    requires
        mounts@.len() >= 1,
    ensures
        match git_canon {
            Err(reason) => r matches Err(ContextError::GitUnresolvable { path, reason: why })
                && path@ == git_source@ && why@ == reason@,
            Ok(g) => match first_violation(forbidden@, g@) {
                Some(i) => r matches Err(ContextError::GitForbidden { forbidden_error })
                    && forbidden_error == violation(forbidden@[i]),
                None => if !under_or_eq(g@, home_canon@) {
                    r matches Err(ContextError::GitOutsideHome { path, home }) && path@ == git_source@
                        && home@ == home_canon@
                } else if !under_or_eq(g@, mounts@[0].source@) {
                    r matches Err(ContextError::GitOutsideProject { path }) && path@ == git_source@
                } else {
                    r matches Ok(out) && with_git_overlay(mounts@, g@, project_target@, out@)
                },
            },
        },
{
    let g = match git_canon {
        Err(reason) => {
            return Err(ContextError::GitUnresolvable { path: owned(git_source), reason: reason.clone() });
        },
        Ok(g) => g,
    };
    match find_violation(forbidden.as_slice(), g.as_str()) {
        Some(i) => {
            return Err(ContextError::GitForbidden { forbidden_error: error_of(&forbidden[i]) });
        },
        None => {},
    }
    if !is_under_or_eq(g.as_str(), home_canon) {
        return Err(ContextError::GitOutsideHome { path: owned(git_source), home: owned(home_canon) });
    }
    if !is_under_or_eq(g.as_str(), mounts[0].source.as_str()) {
        return Err(ContextError::GitOutsideProject { path: owned(git_source) });
    }
    let mut out = mounts;
    let first = Mount {
        source: out[0].source.clone(),
        target: out[0].target.clone(),
        access: AccessMode::ReadOnly,
    };
    let ghost before = out@;
    out.set(0, first);
    let overlay = Mount {
        source: g.clone(),
        target: join_path(project_target, ".git"),
        access: AccessMode::ReadWrite,
    };
    proof {
        reveal_strlit(".git");
    }
    let ghost mid = out@;
    out.insert(1, overlay);
    proof {
        assert forall|i: int| 1 <= i < before.len() implies #[trigger] out@[i + 1] == before[i] by {
            assert(out@[i + 1] == mid[i]);
        }
    }
    Ok(out)
}

// ---------------------------------------------------------------------------
// The run
// ---------------------------------------------------------------------------

/// What the host reports, gathered by the caller after
/// [`resolve_settings`].
#[derive(Debug)]
pub struct HostFacts {
    /// The current directory.
    pub cwd: String,
    /// `$HOME` as given, and canonicalized.
    pub home: String,
    pub home_canon: String,
    /// The forbidden list of the host (see
    /// [`mount_forbidden_list`](crate::validate::mount_forbidden_list)).
    pub forbidden: Vec<Forbidden>,
    /// The allowed directories and files that canonicalize, canonical.
    pub allowed_dirs: Vec<String>,
    pub allowed_files: Vec<String>,
    /// What each planned mount source resolved to, in order.
    pub mount_sources: Vec<Resolved>,
    /// The host's value of each variable in the settings' `pass_env`, in
    /// order, `None` when unset.
    pub pass_env_values: Vec<Option<String>>,
    /// `<cwd>/.git`, and what canonicalizing it gave (looked at in
    /// worktree mode only).
    pub git_source: String,
    pub git_canon: Result<String, String>,
    /// A fresh random UUID, shared by the instance and bridge names.
    pub instance_uuid: u128,
}

/// All configuration and runtime state resolved before launching.
#[derive(Debug)]
pub struct RunContext {
    /// The settings, with the validated mounts.
    pub settings: Settings,
    pub env_map: EnvMap,
    pub name: String,
    /// Random identifier shared between the instance name and bridge name.
    pub instance_uuid: u128,
    /// Network allow rules from the configuration.
    pub network_allow: Vec<NetworkRule>,
}

/// The canonical path a mount source resolved to (empty when it did not).
pub open spec fn canonical_of(r: Resolved) -> Seq<char> {
    match r {
        Resolved::Found { canonical, .. } => canonical@,
        Resolved::Unresolvable { .. } => Seq::empty(),
    }
}

/// `b` is `a` but for the mounts.
pub open spec fn same_but_mounts(a: Settings, b: Settings) -> bool {
    &&& b.image == a.image
    &&& b.kind == a.kind
    &&& b.cpu == a.cpu
    &&& b.memory == a.memory
    &&& b.disk == a.disk
    &&& b.processes == a.processes
    &&& b.disk_priority == a.disk_priority
    &&& b.memory_enforce == a.memory_enforce
    &&& b.network_ingress == a.network_ingress
    &&& b.network_egress == a.network_egress
    &&& b.exec_uid == a.exec_uid
    &&& b.exec_gid == a.exec_gid
    &&& b.container_uid == a.container_uid
    &&& b.container_gid == a.container_gid
    &&& b.user_name == a.user_name
    &&& b.container_home == a.container_home
    &&& b.project_target == a.project_target
    &&& b.project_dir == a.project_dir
    &&& b.raw_idmap == a.raw_idmap
    &&& b.worktree_enabled == a.worktree_enabled
    &&& b.mount_project == a.mount_project
    &&& b.effective_readonly == a.effective_readonly
    &&& b.ephemeral == a.ephemeral
    &&& b.description == a.description
    &&& b.network_dns == a.network_dns
    &&& b.security_nesting == a.security_nesting
    &&& b.secure_boot == a.secure_boot
    &&& b.notifications == a.notifications
    &&& b.pass_env == a.pass_env
}

/// The mounts of a run: each planned mount with its canonical source, in
/// order. When the project is mounted it comes first, read-only in
/// worktree mode or when read-only is asked for, else read-write. In
/// worktree mode the canonical `.git` (`git`) follows it, read-write, at
/// `<project target>/.git`.
pub open spec fn run_mounts(s: Settings, sources: Seq<Resolved>, git: Seq<char>, out: Seq<Mount>) -> bool {
    &&& out.len() == s.mounts@.len() + (if s.worktree_enabled { 1int } else { 0 })
    &&& s.mounts@.len() >= 1 ==> {
        &&& out[0].source@ == canonical_of(sources[0])
        &&& out[0].target@ == s.mounts@[0].target@
        &&& out[0].access == if s.mount_project {
            if s.worktree_enabled || s.effective_readonly {
                AccessMode::ReadOnly
            } else {
                AccessMode::ReadWrite
            }
        } else {
            s.mounts@[0].access
        }
    }
    &&& forall|i: int|
        #![trigger s.mounts@[i]]
        1 <= i < s.mounts@.len() ==> {
            &&& out[i + (if s.worktree_enabled { 1int } else { 0 })].source@ == canonical_of(sources[i])
            &&& out[i + (if s.worktree_enabled { 1int } else { 0 })].target@ == s.mounts@[i].target@
            &&& out[i + (if s.worktree_enabled { 1int } else { 0 })].access == s.mounts@[i].access
        }
    &&& s.worktree_enabled ==> {
        &&& out[1].source@ == git
        &&& out[1].target@ == join(s.project_target@, ".git"@)
        &&& out[1].access == AccessMode::ReadWrite
    }
}

/// Every mount source passes validation.
pub open spec fn all_mounts_allowed(s: Settings, host: HostFacts) -> bool {
    forall|i: int|
        0 <= i < s.mounts@.len() ==> (#[trigger] verdict_at(
            host.mount_sources@,
            i,
            host.home_canon@,
            host.forbidden@,
            host.allowed_dirs@,
            host.allowed_files@,
        )) is Allowed
}

/// The environment of the run, or the index of the first bad `--env`.
pub open spec fn run_env(s: Settings, static_env: EnvMap, cli_env: Seq<String>, host: HostFacts) -> Result<
    Map<Seq<char>, Seq<char>>,
    int,
> {
    with_assignments(with_passed(static_env@, s.pass_env@, host.pass_env_values@, s.pass_env@.len()), cli_env, cli_env.len())
}

/// Everything before the `.git` overlay succeeds: the mounts, the
/// environment and the network rules.
pub open spec fn before_git_ok(
    s: Settings,
    static_env: EnvMap,
    cli_env: Seq<String>,
    rules: Seq<ConfigNetworkRule>,
    host: HostFacts,
) -> bool {
    &&& all_mounts_allowed(s, host)
    &&& run_env(s, static_env, cli_env, host) is Ok
    &&& forall|i: int| 0 <= i < rules.len() ==> #[trigger] rule_problem(rules[i]) is None
}

/// Finish resolving a run from its settings and what the host reports.
///
/// In order: every mount source is validated against the host's forbidden
/// list, the home boundary and the allowlists; the environment is assembled (see [`merge_env`]); the
/// instance is named (`--name`, else from the directory, image and UUID);
/// the network rules are converted. In worktree mode the project's `.git`
/// is overlaid read-write on the read-only project (see [`git_overlay`]);
/// otherwise the project mount is read-write when it is mounted and not
/// read-only. The settings are kept but for the mounts (see
/// [`run_mounts`]).
pub fn resolve_context(
    settings: Settings,
    name: &Option<String>,
    static_env: &EnvMap,
    cli_env: &Vec<String>,
    rules: Vec<ConfigNetworkRule>,
    host: &HostFacts,
) -> (r: Result<RunContext, ContextError>)
    requires
        host.mount_sources@.len() == settings.mounts@.len(),
        host.pass_env_values@.len() == settings.pass_env@.len(),
        settings.worktree_enabled ==> settings.mount_project,
        settings.mount_project ==> settings.mounts@.len() >= 1,
        settings.mount_project ==> settings.mounts@[0].access == AccessMode::ReadOnly,
    ensures
        match r {
            Ok(c) => {
                &&& before_git_ok(settings, *static_env, cli_env@, rules@, *host)
                &&& run_env(settings, *static_env, cli_env@, *host) == Ok::<Map<Seq<char>, Seq<char>>, int>(c.env_map@)
                &&& c.name@ == match name {
                    Some(n) => n@,
                    None => instance_name_text(host.cwd@, host.home@, settings.image@, host.instance_uuid),
                }
                &&& c.instance_uuid == host.instance_uuid
                &&& c.network_allow@.len() == rules@.len()
                &&& forall|i: int| 0 <= i < rules@.len() ==> converts(rules@[i], #[trigger] c.network_allow@[i])
                &&& same_but_mounts(settings, c.settings)
                &&& settings.worktree_enabled ==> (host.git_canon matches Ok(g) && first_violation(host.forbidden@, g@) is None
                    && under_or_eq(g@, host.home_canon@) && under_or_eq(g@, canonical_of(host.mount_sources@[0])))
                &&& run_mounts(
                    settings,
                    host.mount_sources@,
                    match host.git_canon {
                        Ok(g) => g@,
                        Err(_) => Seq::empty(),
                    },
                    c.settings.mounts@,
                )
            },
            Err(ContextError::Mount { error }) => exists|i: int|
                0 <= i < settings.mounts@.len() && (forall|j: int|
                    0 <= j < i ==> verdict_at(
                        host.mount_sources@,
                        j,
                        host.home_canon@,
                        host.forbidden@,
                        host.allowed_dirs@,
                        host.allowed_files@,
                    ) is Allowed) && error_matches(
                    error,
                    #[trigger] verdict_at(
                        host.mount_sources@,
                        i,
                        host.home_canon@,
                        host.forbidden@,
                        host.allowed_dirs@,
                        host.allowed_files@,
                    ),
                    settings.mounts@[i].source@,
                    host.mount_sources@[i],
                    host.home_canon@,
                    host.forbidden@,
                ),
            Err(ContextError::InvalidEnv { value }) => all_mounts_allowed(settings, *host)
                && (run_env(settings, *static_env, cli_env@, *host) matches Err(i) && 0 <= i < cli_env@.len()
                && value@ == cli_env@[i]@),
            Err(ContextError::Network { config_error }) => all_mounts_allowed(settings, *host)
                && run_env(settings, *static_env, cli_env@, *host) is Ok
                && exists|i: int|
                0 <= i < rules@.len() && (forall|j: int| 0 <= j < i ==> rule_problem(rules@[j]) is None)
                    && (#[trigger] rule_problem(rules@[i]) matches Some(m) && config_error matches ConfigError::Validation(t)
                    && t@ == m),
            Err(ContextError::GitUnresolvable { path, reason }) => settings.worktree_enabled
                && before_git_ok(settings, *static_env, cli_env@, rules@, *host)
                && (host.git_canon matches Err(why) && path@ == host.git_source@ && reason@ == why@),
            Err(ContextError::GitForbidden { forbidden_error }) => settings.worktree_enabled
                && before_git_ok(settings, *static_env, cli_env@, rules@, *host)
                && (host.git_canon matches Ok(g) && (first_violation(host.forbidden@, g@) matches Some(i)
                && forbidden_error == violation(host.forbidden@[i]))),
            Err(ContextError::GitOutsideHome { path, home }) => settings.worktree_enabled
                && before_git_ok(settings, *static_env, cli_env@, rules@, *host)
                && (host.git_canon matches Ok(g) && first_violation(host.forbidden@, g@) is None
                && !under_or_eq(g@, host.home_canon@) && path@ == host.git_source@ && home@ == host.home_canon@),
            Err(ContextError::GitOutsideProject { path }) => settings.worktree_enabled
                && before_git_ok(settings, *static_env, cli_env@, rules@, *host)
                && (host.git_canon matches Ok(g) && first_violation(host.forbidden@, g@) is None
                && under_or_eq(g@, host.home_canon@) && !under_or_eq(g@, canonical_of(host.mount_sources@[0]))
                && path@ == host.git_source@),
            Err(ContextError::InvalidUsername { .. }) => false,
            Err(ContextError::ConfigDir { .. }) => false,
        },
{
    let ghost s0 = settings;
    let forbidden = &host.forbidden;
    let mut s = settings;
    let mut planned: Vec<Mount> = Vec::new();
    std::mem::swap(&mut planned, &mut s.mounts);
    let ghost pl = planned@;
    let mounts = match validate_mounts(
        planned,
        &host.mount_sources,
        host.home_canon.as_str(),
        forbidden,
        &host.allowed_dirs,
        &host.allowed_files,
    ) {
        Ok(m) => m,
        Err(e) => return Err(ContextError::Mount { error: e }),
    };
    let ghost v = mounts@;
    proof {
        assert(pl == s0.mounts@);
        assert forall|i: int| 0 <= i < pl.len() implies (#[trigger] v[i]).source@ == canonical_of(host.mount_sources@[i])
            && v[i].target@ == pl[i].target@ && v[i].access == pl[i].access by {
            assert(verdict_at(
                host.mount_sources@,
                i,
                host.home_canon@,
                host.forbidden@,
                host.allowed_dirs@,
                host.allowed_files@,
            ) is Allowed);
        }
    }
    proof {
        lemma_assignment_error_index(
            with_passed(static_env@, s.pass_env@, host.pass_env_values@, s.pass_env@.len()),
            cli_env@,
            cli_env@.len(),
        );
    }
    let env_map = match merge_env(static_env, &s.pass_env, &host.pass_env_values, cli_env) {
        Ok(m) => m,
        Err(e) => return Err(e),
    };
    let name = match name {
        Some(n) => n.clone(),
        None => instance_name(host.cwd.as_str(), host.home.as_str(), s.image.as_str(), host.instance_uuid),
    };
    let network_allow = match convert_rules(rules) {
        Ok(v) => v,
        Err(e) => return Err(ContextError::Network { config_error: e }),
    };
    proof {
        assert forall|i: int| 0 <= i < rules@.len() implies #[trigger] rule_problem(rules@[i]) is None by {
            assert(converts(rules@[i], network_allow@[i]));
        }
    }
    let mounts = if s.worktree_enabled {
        match git_overlay(
            mounts,
            host.git_source.as_str(),
            &host.git_canon,
            forbidden,
            host.home_canon.as_str(),
            s.project_target.as_str(),
        ) {
            Ok(m) => m,
            Err(e) => return Err(e),
        }
    } else if s.mount_project && !s.effective_readonly {
        let mut m = mounts;
        let first = Mount {
            source: m[0].source.clone(),
            target: m[0].target.clone(),
            access: AccessMode::ReadWrite,
        };
        m.set(0, first);
        assert(m@[0].access == AccessMode::ReadWrite);
        m
    } else {
        mounts
    };
    let ghost out = mounts@;
    proof {
        let k: int = if s0.worktree_enabled { 1 } else { 0 };
        if pl.len() >= 1 {
            assert(v[0].source@ == canonical_of(host.mount_sources@[0]));
        }
        assert forall|i: int| #![trigger s0.mounts@[i]] 1 <= i < pl.len() implies {
            &&& out[i + k].source@ == canonical_of(host.mount_sources@[i])
            &&& out[i + k].target@ == pl[i].target@
            &&& out[i + k].access == pl[i].access
        } by {
            assert(v[i].source@ == canonical_of(host.mount_sources@[i]));
        }
    }
    s.mounts = mounts;
    Ok(RunContext { settings: s, env_map, name, instance_uuid: host.instance_uuid, network_allow })
}

} // verus!
