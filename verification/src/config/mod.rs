//! The configuration file and profiles.

pub mod backend;
pub mod limits;
pub mod merge_strategy;
pub mod network;
pub mod profiles;
pub mod proxy;
pub mod worktree;
pub mod validation;
pub mod loading;

use vstd::prelude::*;
use crate::distro::DistroKind;
use crate::envmap::EnvMap;
use crate::instance::InstanceKind;
use crate::mount::Mount;
use crate::strings::{push_str, string_of};
use self::backend::BackendConfig;
use self::limits::Limits;
use self::merge_strategy::{append, or_default, prefer_some};
use self::network::NetworkConfig;
use self::worktree::WorktreeConfig;

verus! {

/// Errors from loading or validating configuration.
#[derive(Debug)]
pub enum ConfigError {
    /// A file could not be read.
    Io { path: String, reason: String },
    /// A file could not be parsed.
    Parse { path: String, reason: String },
    /// The configuration is not acceptable.
    Validation(String),
}

impl ConfigError {
    /// The error text.
    pub fn message(&self) -> (r: String)
        ensures
            match self {
                ConfigError::Validation(m) => r@ == m@,
                ConfigError::Io { path, reason } => r@ == "failed to read "@ + path@ + ": "@ + reason@,
                ConfigError::Parse { path, reason } => r@ == "failed to parse "@ + path@ + ": "@
                    + reason@,
            },
    {
        let mut v = Vec::new();
        match self {
            ConfigError::Validation(m) => push_str(&mut v, m.as_str()),
            ConfigError::Io { path, reason } => {
                push_str(&mut v, "failed to read ");
                push_str(&mut v, path.as_str());
                push_str(&mut v, ": ");
                push_str(&mut v, reason.as_str());
            },
            ConfigError::Parse { path, reason } => {
                push_str(&mut v, "failed to parse ");
                push_str(&mut v, path.as_str());
                push_str(&mut v, ": ");
                push_str(&mut v, reason.as_str());
            },
        }
        string_of(&v)
    }
}

/// The value `notifications` takes when the config file omits it.
pub fn default_notifications() -> (r: Option<bool>)
    ensures
        r == Some(true),
{
    Some(true)
}

/// The whole configuration (`config.toml` or a profile).
#[derive(Debug)]
pub struct Config {
    // -- Backend selection --
    pub backend: BackendConfig,

    // -- Instance identity / infrastructure --
    pub image: Option<String>,
    /// Run as a VM instead of a container.
    pub kind: Option<InstanceKind>,
    /// Non-root user created inside the container.
    pub user: Option<String>,
    /// UID assigned to `user` inside the container; used for idmaps.
    pub container_uid: Option<u32>,
    /// GID assigned to `user`'s primary group inside the container.
    pub container_gid: Option<u32>,
    /// Which distribution the image is based on.
    pub distro: Option<DistroKind>,
    /// Enable LXD security.nesting (required for snapd, Docker, etc.).
    pub security_nesting: Option<bool>,
    /// Disable UEFI secure boot for VMs. Ignored on containers.
    pub secure_boot: Option<bool>,

    // -- Runtime behaviour --
    pub limits: Limits,
    pub mounts: Vec<Mount>,
    /// Absolute directory paths that may be bind-mounted (exact match).
    pub allowed_dirs: Vec<String>,
    /// Absolute file paths that may be bind-mounted (exact match).
    pub allowed_files: Vec<String>,
    /// Static environment variables set for every `lxc exec`.
    pub env: EnvMap,
    /// Target path inside the container for the project bind-mount.
    pub project_target: Option<String>,
    /// Names of host environment variables to forward into the container.
    pub pass_env: Vec<String>,
    /// Name of the active secret provider.
    pub secret_provider: Option<String>,
    /// Network isolation configuration.
    pub network: NetworkConfig,
    /// Mount the project directory read-only.
    pub project_readonly: Option<bool>,
    /// Worktree configuration.
    pub worktree: WorktreeConfig,
    /// Mount the project directory (current working directory).
    pub mount_project: Option<bool>,
    /// Inline script run as the container user before the main command.
    pub pre_run: Option<String>,
    /// Whether to bind-mount the notification proxy socket.
    pub notifications: Option<bool>,
}

impl Default for Config {
    fn default() -> (r: Self)
        ensures
            empty_config(r),
    {
        Config {
            backend: BackendConfig::default(),
            image: None,
            kind: None,
            user: None,
            container_uid: None,
            container_gid: None,
            distro: None,
            security_nesting: None,
            secure_boot: None,
            limits: Limits::default(),
            mounts: Vec::new(),
            allowed_dirs: Vec::new(),
            allowed_files: Vec::new(),
            env: EnvMap::new(),
            project_target: None,
            pass_env: Vec::new(),
            secret_provider: None,
            network: NetworkConfig::default(),
            project_readonly: None,
            worktree: WorktreeConfig::default(),
            mount_project: None,
            pre_run: None,
            notifications: None,
        }
    }
}

/// `r` is `p` merged over `d`: each scalar is the profile's when set,
/// else the default's; lists are the default's followed by the profile's;
/// maps are the default's with the profile's entries over them.
pub open spec fn merge_of(d: Config, p: Config, r: Config) -> bool {
    &&& r.backend.kind == prefer_some(d.backend.kind, p.backend.kind)
    &&& r.backend.project == prefer_some(d.backend.project, p.backend.project)
    &&& r.backend.pool == prefer_some(d.backend.pool, p.backend.pool)
    &&& r.image == prefer_some(d.image, p.image)
    &&& r.kind == prefer_some(d.kind, p.kind)
    &&& r.user == prefer_some(d.user, p.user)
    &&& r.container_uid == prefer_some(d.container_uid, p.container_uid)
    &&& r.container_gid == prefer_some(d.container_gid, p.container_gid)
    &&& r.distro == prefer_some(d.distro, p.distro)
    &&& r.security_nesting == prefer_some(d.security_nesting, p.security_nesting)
    &&& r.secure_boot == prefer_some(d.secure_boot, p.secure_boot)
    &&& r.limits.cpu == prefer_some(d.limits.cpu, p.limits.cpu)
    &&& r.limits.memory == prefer_some(d.limits.memory, p.limits.memory)
    &&& r.limits.disk == prefer_some(d.limits.disk, p.limits.disk)
    &&& r.limits.processes == prefer_some(d.limits.processes, p.limits.processes)
    &&& r.limits.disk_priority == prefer_some( d.limits.disk_priority, p.limits.disk_priority, )
    &&& r.limits.memory_enforce == prefer_some( d.limits.memory_enforce, p.limits.memory_enforce, )
    &&& r.limits.network_ingress == prefer_some( d.limits.network_ingress, p.limits.network_ingress, )
    &&& r.limits.network_egress == prefer_some( d.limits.network_egress, p.limits.network_egress, )
    &&& r.mounts@ == d.mounts@ + p.mounts@
    &&& r.allowed_dirs@ == d.allowed_dirs@ + p.allowed_dirs@
    &&& r.allowed_files@ == d.allowed_files@ + p.allowed_files@
    &&& r.env@ == d.env@.union_prefer_right(p.env@)
    &&& r.pass_env@ == d.pass_env@ + p.pass_env@
    &&& r.secret_provider == prefer_some(d.secret_provider, p.secret_provider)
    &&& r.project_target == prefer_some(d.project_target, p.project_target)
    &&& r.network.allow@ == d.network.allow@ + p.network.allow@
    &&& r.network.dns == prefer_some(d.network.dns, p.network.dns)
    &&& r.project_readonly == prefer_some(d.project_readonly, p.project_readonly)
    &&& r.mount_project == prefer_some(d.mount_project, p.mount_project)
    &&& r.worktree.branch == prefer_some(d.worktree.branch, p.worktree.branch)
    &&& r.worktree.auto_commit == prefer_some( d.worktree.auto_commit, p.worktree.auto_commit, )
    &&& r.worktree.user_name == prefer_some( d.worktree.user_name, p.worktree.user_name, )
    &&& r.worktree.user_email == prefer_some( d.worktree.user_email, p.worktree.user_email, )
    &&& r.pre_run == prefer_some(d.pre_run, p.pre_run)
    &&& r.notifications == prefer_some(d.notifications, p.notifications)
}

/// Two configurations hold the same values.
pub open spec fn same_config(x: Config, y: Config) -> bool {
    &&& y.backend.kind == x.backend.kind
    &&& y.backend.project == x.backend.project
    &&& y.backend.pool == x.backend.pool
    &&& y.image == x.image
    &&& y.kind == x.kind
    &&& y.user == x.user
    &&& y.container_uid == x.container_uid
    &&& y.container_gid == x.container_gid
    &&& y.distro == x.distro
    &&& y.security_nesting == x.security_nesting
    &&& y.secure_boot == x.secure_boot
    &&& y.limits.cpu == x.limits.cpu
    &&& y.limits.memory == x.limits.memory
    &&& y.limits.disk == x.limits.disk
    &&& y.limits.processes == x.limits.processes
    &&& y.limits.disk_priority == x.limits.disk_priority
    &&& y.limits.memory_enforce == x.limits.memory_enforce
    &&& y.limits.network_ingress == x.limits.network_ingress
    &&& y.limits.network_egress == x.limits.network_egress
    &&& y.mounts@ == x.mounts@
    &&& y.allowed_dirs@ == x.allowed_dirs@
    &&& y.allowed_files@ == x.allowed_files@
    &&& y.env@ == x.env@
    &&& y.pass_env@ == x.pass_env@
    &&& y.secret_provider == x.secret_provider
    &&& y.project_target == x.project_target
    &&& y.network.allow@ == x.network.allow@
    &&& y.network.dns == x.network.dns
    &&& y.project_readonly == x.project_readonly
    &&& y.mount_project == x.mount_project
    &&& y.worktree.branch == x.worktree.branch
    &&& y.worktree.auto_commit == x.worktree.auto_commit
    &&& y.worktree.user_name == x.worktree.user_name
    &&& y.worktree.user_email == x.worktree.user_email
    &&& y.pre_run == x.pre_run
    &&& y.notifications == x.notifications
}

/// A configuration that sets nothing.
pub open spec fn empty_config(c: Config) -> bool {
    &&& c.backend.kind is None
    &&& c.backend.project is None
    &&& c.backend.pool is None
    &&& c.image is None
    &&& c.kind is None
    &&& c.user is None
    &&& c.container_uid is None
    &&& c.container_gid is None
    &&& c.distro is None
    &&& c.security_nesting is None
    &&& c.secure_boot is None
    &&& c.limits.cpu is None
    &&& c.limits.memory is None
    &&& c.limits.disk is None
    &&& c.limits.processes is None
    &&& c.limits.disk_priority is None
    &&& c.limits.memory_enforce is None
    &&& c.limits.network_ingress is None
    &&& c.limits.network_egress is None
    &&& c.mounts@.len() == 0
    &&& c.allowed_dirs@.len() == 0
    &&& c.allowed_files@.len() == 0
    &&& c.env@ == Map::<Seq<char>, Seq<char>>::empty()
    &&& c.pass_env@.len() == 0
    &&& c.secret_provider is None
    &&& c.project_target is None
    &&& c.network.allow@.len() == 0
    &&& c.network.dns is None
    &&& c.project_readonly is None
    &&& c.mount_project is None
    &&& c.worktree.branch is None
    &&& c.worktree.auto_commit is None
    &&& c.worktree.user_name is None
    &&& c.worktree.user_email is None
    &&& c.pre_run is None
    &&& c.notifications is None
}

/// Merging is associative: folding a chain of profiles onto the default
/// one at a time gives the same configuration as merging the later
/// profiles together first.
pub proof fn law_merge_associative(a: Config, b: Config, c: Config, ab: Config, ab_c: Config, bc: Config, a_bc: Config)
    requires
        merge_of(a, b, ab),
        merge_of(ab, c, ab_c),
        merge_of(b, c, bc),
        merge_of(a, bc, a_bc),
    ensures
        same_config(ab_c, a_bc),
{
    assert(ab_c.mounts@ =~= a_bc.mounts@);
    assert(ab_c.allowed_dirs@ =~= a_bc.allowed_dirs@);
    assert(ab_c.allowed_files@ =~= a_bc.allowed_files@);
    assert(ab_c.pass_env@ =~= a_bc.pass_env@);
    assert(ab_c.network.allow@ =~= a_bc.network.allow@);
    assert(ab_c.env@ =~= a_bc.env@);
}

/// Merging a profile that sets nothing leaves the configuration as it was.
pub proof fn law_merge_empty_profile(d: Config, p: Config, r: Config)
    requires
        empty_config(p),
        merge_of(d, p, r),
    ensures
        same_config(d, r),
{
    assert(r.mounts@ =~= d.mounts@);
    assert(r.allowed_dirs@ =~= d.allowed_dirs@);
    assert(r.allowed_files@ =~= d.allowed_files@);
    assert(r.pass_env@ =~= d.pass_env@);
    assert(r.network.allow@ =~= d.network.allow@);
    assert(r.env@ =~= d.env@);
}

/// Merging a profile onto a default that sets nothing gives the profile.
pub proof fn law_merge_onto_empty(d: Config, p: Config, r: Config)
    requires
        empty_config(d),
        merge_of(d, p, r),
    ensures
        same_config(p, r),
{
    assert(r.mounts@ =~= p.mounts@);
    assert(r.allowed_dirs@ =~= p.allowed_dirs@);
    assert(r.allowed_files@ =~= p.allowed_files@);
    assert(r.pass_env@ =~= p.pass_env@);
    assert(r.network.allow@ =~= p.network.allow@);
    assert(r.env@ =~= p.env@);
}

impl Config {
    /// Merge two `Config` values. Scalars: profile wins when set.
    /// Lists: concatenated (default first, profile appended).
    /// Maps: merged with profile keys overriding.
    pub fn merge(default: Self, profile: Self) -> (r: Self)
        ensures
            merge_of(default, profile, r),
    {
        let Config {
            backend: d_backend,
            image: d_image,
            kind: d_kind,
            user: d_user,
            container_uid: d_uid,
            container_gid: d_gid,
            distro: d_distro,
            security_nesting: d_nesting,
            secure_boot: d_secure_boot,
            limits: d_limits,
            mounts: d_mounts,
            allowed_dirs: d_dirs,
            allowed_files: d_files,
            env: d_env,
            project_target: d_target,
            pass_env: d_pass_env,
            secret_provider: d_provider,
            network: d_network,
            project_readonly: d_readonly,
            worktree: d_worktree,
            mount_project: d_mount_project,
            pre_run: d_pre_run,
            notifications: d_notifications,
        } = default;
        let Config {
            backend: p_backend,
            image: p_image,
            kind: p_kind,
            user: p_user,
            container_uid: p_uid,
            container_gid: p_gid,
            distro: p_distro,
            security_nesting: p_nesting,
            secure_boot: p_secure_boot,
            limits: p_limits,
            mounts: p_mounts,
            allowed_dirs: p_dirs,
            allowed_files: p_files,
            env: p_env,
            project_target: p_target,
            pass_env: p_pass_env,
            secret_provider: p_provider,
            network: p_network,
            project_readonly: p_readonly,
            worktree: p_worktree,
            mount_project: p_mount_project,
            pre_run: p_pre_run,
            notifications: p_notifications,
        } = profile;
        let mut mounts = d_mounts;
        append(&mut mounts, p_mounts);
        let mut allowed_dirs = d_dirs;
        append(&mut allowed_dirs, p_dirs);
        let mut allowed_files = d_files;
        append(&mut allowed_files, p_files);
        let mut env = d_env;
        env.extend(&p_env);
        let mut pass_env = d_pass_env;
        append(&mut pass_env, p_pass_env);
        Config {
            backend: BackendConfig::merge(d_backend, p_backend),
            image: or_default(d_image, p_image),
            kind: or_default(d_kind, p_kind),
            user: or_default(d_user, p_user),
            container_uid: or_default(d_uid, p_uid),
            container_gid: or_default(d_gid, p_gid),
            distro: or_default(d_distro, p_distro),
            security_nesting: or_default(d_nesting, p_nesting),
            secure_boot: or_default(d_secure_boot, p_secure_boot),
            limits: Limits::merge(d_limits, p_limits),
            mounts,
            allowed_dirs,
            allowed_files,
            env,
            pass_env,
            secret_provider: or_default(d_provider, p_provider),
            project_target: or_default(d_target, p_target),
            network: NetworkConfig::merge(d_network, p_network),
            project_readonly: or_default(d_readonly, p_readonly),
            mount_project: or_default(d_mount_project, p_mount_project),
            worktree: WorktreeConfig::merge(d_worktree, p_worktree),
            pre_run: or_default(d_pre_run, p_pre_run),
            notifications: or_default(d_notifications, p_notifications),
        }
    }
}

} // verus!
