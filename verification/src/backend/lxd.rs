//! The `lxc` / `incus` command lines for every backend operation.
//!
//! Each function returns the full argv (program first); running it is the
//! caller's business.

use vstd::prelude::*;
use crate::backend::{Device, InstanceConfig};
use crate::backend::acl::{NetworkAclRule, acl_rule_args, rule_to_cli_args};
use crate::command::{CommandError, CommandRunner, Logged, Ran, added_since};
use crate::config::backend::{BackendConfig, BackendKind};
use crate::mount::AccessMode;
use crate::strings::{
    contains_text, str_contains, chars_of, decimal, decimal_chars, owned, push_chars, push_str, signed_decimal,
    signed_decimal_chars, string_of, strings_view,
};

verus! {

/// LXC-family backend -- spawns the `lxc` or `incus` CLI for all operations.
///
/// The [`lxd`](Self::lxd) and [`incus`](Self::incus) constructors select the
/// binary. `remote`, `project`, and `pool` scope all invocations and configure
/// the root disk device.
#[derive(Debug)]
pub struct LxcBackend {
    pub remote: Option<String>,
    pub project: Option<String>,
    pub pool: String,
    pub binary: &'static str,
}

/// Appends one argument.
fn arg(v: &mut Vec<String>, s: &str)
    ensures
        strings_view(final(v)@) == strings_view(old(v)@).push(s@),
{
    let ghost old_v = v@;
    v.push(owned(s));
    assert(strings_view(v@) =~= strings_view(old_v).push(s@));
}

/// Appends `prefix` followed by `value` as one argument.
fn arg2(v: &mut Vec<String>, prefix: &str, value: &str)
    ensures
        strings_view(final(v)@) == strings_view(old(v)@).push(prefix@ + value@),
{
    let mut t = Vec::new();
    push_str(&mut t, prefix);
    push_str(&mut t, value);
    let ghost old_v = v@;
    v.push(string_of(&t));
    assert(strings_view(v@) =~= strings_view(old_v).push(prefix@ + value@));
}

/// Appends `prefix` followed by a number as one argument.
fn arg_num(v: &mut Vec<String>, prefix: &str, n: u64)
    ensures
        strings_view(final(v)@) == strings_view(old(v)@).push(prefix@ + decimal(n as nat)),
{
    let mut t = Vec::new();
    push_str(&mut t, prefix);
    let d = decimal_chars(n);
    push_chars(&mut t, &d);
    let ghost old_v = v@;
    v.push(string_of(&t));
    assert(strings_view(v@) =~= strings_view(old_v).push(prefix@ + decimal(n as nat)));
}

/// Appends every argument of `w`.
fn args(v: &mut Vec<String>, w: &Vec<String>)
    ensures
        strings_view(final(v)@) == strings_view(old(v)@) + strings_view(w@),
{
    let mut i: usize = 0;
    let ghost start = strings_view(v@);
    while i < w.len()
        invariant
            i <= w@.len(),
            strings_view(v@) == start + strings_view(w@).take(i as int),
        decreases w@.len() - i,
    {
        arg(v, w[i].as_str());
        assert(strings_view(w@).take(i as int).push(w@[i as int]@) =~= strings_view(w@).take(i + 1));
        i = i + 1;
    }
    assert(strings_view(w@).take(w@.len() as int) =~= strings_view(w@));
}

/// `--flag value` when the value is present.
pub open spec fn opt_flag(flag: Seq<char>, v: Option<String>) -> Seq<Seq<char>> {
    match v {
        Some(x) => seq![flag, x@],
        None => Seq::empty(),
    }
}

/// `--config key=value` pairs.
pub open spec fn config_kv(kv: Seq<char>) -> Seq<Seq<char>> {
    seq!["--config"@, kv]
}

/// Appends `--config key=value` when the value is present.
fn push_text_kv(v: &mut Vec<String>, key: &str, t: &Option<String>)
    ensures
        strings_view(final(v)@) == strings_view(old(v)@) + text_config(key@, *t),
{
    let ghost p = strings_view(v@);
    match t {
        Some(x) => {
            arg(v, "--config");
            arg2(v, key, x.as_str());
        },
        None => {},
    }
    assert(strings_view(v@) =~= p + text_config(key@, *t));
}

/// Appends `--config key=<n>` when the number is present.
fn push_num_kv(v: &mut Vec<String>, key: &str, n: Option<u32>)
    ensures
        strings_view(final(v)@) == strings_view(old(v)@) + num_config(key@, n),
{
    let ghost p = strings_view(v@);
    match n {
        Some(x) => {
            arg(v, "--config");
            arg_num(v, key, x as u64);
        },
        None => {},
    }
    assert(strings_view(v@) =~= p + num_config(key@, n));
}

/// Appends `--config limits.processes=<n>` when the number is present.
fn push_processes(v: &mut Vec<String>, n: Option<i32>)
    ensures
        strings_view(final(v)@) == strings_view(old(v)@) + processes_args(n),
{
    let ghost p = strings_view(v@);
    match n {
        Some(pr) => {
            arg(v, "--config");
            let mut t = Vec::new();
            push_str(&mut t, "limits.processes=");
            let d = signed_decimal_chars(pr as i64);
            push_chars(&mut t, &d);
            let ghost old_v = strings_view(v@);
            v.push(string_of(&t));
            assert(strings_view(v@) =~= old_v.push("limits.processes="@ + signed_decimal(pr as int)));
        },
        None => {},
    }
    assert(strings_view(v@) =~= p + processes_args(n));
}

/// Appends the root disk size and `--ephemeral` as asked.
fn push_disk_and_ephemeral(v: &mut Vec<String>, disk_size: &Option<String>, ephemeral: bool)
    ensures
        strings_view(final(v)@) == strings_view(old(v)@) + disk_args(*disk_size) + (if ephemeral {
            seq!["--ephemeral"@]
        } else {
            Seq::empty()
        }),
{
    let ghost p = strings_view(v@);
    match disk_size {
        Some(size) => {
            arg(v, "--device");
            arg2(v, "root,size=", size.as_str());
        },
        None => {},
    }
    let ghost s1 = strings_view(v@);
    assert(s1 =~= p + disk_args(*disk_size));
    if ephemeral {
        arg(v, "--ephemeral");
    }
    assert(strings_view(v@) =~= s1 + (if ephemeral { seq!["--ephemeral"@] } else { Seq::empty() }));
}

/// Appends `--vm` and, without secure boot, the boot mode.
fn push_vm(v: &mut Vec<String>, vm: bool, secure_boot: bool)
    ensures
        strings_view(final(v)@) == strings_view(old(v)@) + vm_args(vm, secure_boot),
{
    let ghost p = strings_view(v@);
    if vm {
        arg(v, "--vm");
        if !secure_boot {
            arg(v, "--config");
            arg(v, "boot.mode=uefi-nosecureboot");
        }
    }
    assert(strings_view(v@) =~= p + vm_args(vm, secure_boot));
}

/// Appends the image, the name and the options every instance kind takes.
fn push_create_head(v: &mut Vec<String>, name: &str, config: &InstanceConfig)
    ensures
        strings_view(final(v)@) == strings_view(old(v)@) + create_head(name@, *config),
{
    let ghost p = strings_view(v@);
    arg(v, "init");
    arg(v, config.image.as_str());
    arg(v, name);
    push_disk_and_ephemeral(v, &config.disk_size, config.ephemeral);
    push_vm(v, config.vm, config.secure_boot);
    push_num_kv(v, "limits.cpu=", config.cpu);
    push_text_kv(v, "limits.memory=", &config.memory);
    assert(strings_view(v@) =~= p + create_head(name@, *config));
}

/// Appends the container-only limits (skipped for VMs).
fn push_container_limits(v: &mut Vec<String>, config: &InstanceConfig)
    ensures
        strings_view(final(v)@) == strings_view(old(v)@) + container_only(
            config.vm,
            processes_args(config.processes) + num_config(
                "limits.disk.priority="@,
                config.disk_priority,
            ) + text_config("limits.memory.enforce="@, config.memory_enforce),
        ),
{
    let ghost p = strings_view(v@);
    if !config.vm {
        push_processes(v, config.processes);
        push_num_kv(v, "limits.disk.priority=", config.disk_priority);
        push_text_kv(v, "limits.memory.enforce=", &config.memory_enforce);
    }
    assert(strings_view(v@) =~= p + container_only(
        config.vm,
        processes_args(config.processes) + num_config("limits.disk.priority="@, config.disk_priority)
            + text_config("limits.memory.enforce="@, config.memory_enforce),
    ));
}

/// Appends the container-only limits, the id map and the fixed security
/// options.
fn push_create_tail(v: &mut Vec<String>, config: &InstanceConfig)
    ensures
        strings_view(final(v)@) == strings_view(old(v)@) + create_tail(*config),
{
    let ghost p = strings_view(v@);
    push_container_limits(v, config);
    push_text_kv(v, "raw.idmap=", &config.raw_idmap);
    let ghost s9 = strings_view(v@);
    if config.security_nesting && !config.vm {
        arg(v, "--config");
        arg(v, "security.nesting=true");
    }
    let ghost s10 = strings_view(v@);
    assert(s10 =~= s9 + container_only(config.vm, if config.security_nesting {
        config_kv("security.nesting=true"@)
    } else {
        Seq::empty()
    }));
    arg(v, "--config");
    arg(v, "security.devlxd=false");
    assert(strings_view(v@) =~= p + create_tail(*config));
}

/// Appends `--env K=V` for each variable, in order.
fn push_env(v: &mut Vec<String>, env: &Vec<(String, String)>)
    ensures
        strings_view(final(v)@) == strings_view(old(v)@) + env_args(env@),
{
    let ghost s0 = strings_view(v@);
    let mut i: usize = 0;
    while i < env.len()
        invariant
            i <= env@.len(),
            strings_view(v@) == s0 + env_args(env@.take(i as int)),
        decreases env@.len() - i,
    {
        let ghost t = env@.take(i + 1);
        assert(t.drop_last() =~= env@.take(i as int));
        assert(t.last() == env@[i as int]);
        arg(v, "--env");
        let mut kvv = Vec::new();
        push_str(&mut kvv, env[i].0.as_str());
        push_str(&mut kvv, "=");
        push_str(&mut kvv, env[i].1.as_str());
        let ghost before = strings_view(v@);
        v.push(string_of(&kvv));
        assert(strings_view(v@) =~= before.push(env@[i as int].0@ + "="@ + env@[i as int].1@));
        i = i + 1;
    }
    assert(env@.take(env@.len() as int) =~= env@);
}

/// Appends `HOME` and the proxy variables as asked.
fn push_home_and_proxy(v: &mut Vec<String>, home: &Option<String>, proxy_url: &Option<String>)
    ensures
        strings_view(final(v)@) == strings_view(old(v)@) + home_args(*home) + proxy_args(*proxy_url),
{
    let ghost s1 = strings_view(v@);
    match home {
        Some(h) => {
            arg(v, "--env");
            arg2(v, "HOME=", h.as_str());
        },
        None => {},
    }
    let ghost s2 = strings_view(v@);
    assert(s2 =~= s1 + home_args(*home));
    match proxy_url {
        Some(p) => {
            arg(v, "--env");
            arg2(v, "HTTP_PROXY=", p.as_str());
            arg(v, "--env");
            arg2(v, "HTTPS_PROXY=", p.as_str());
            arg(v, "--env");
            arg(v, "NO_PROXY=");
        },
        None => {},
    }
    assert(strings_view(v@) =~= s2 + proxy_args(*proxy_url));
}

impl LxcBackend {
    /// The binary that is run.
    pub closed spec fn binary_name(&self) -> Seq<char> {
        self.binary@
    }

    /// Backend targeting the LXD daemon.
    pub fn lxd() -> (r: Self)
        ensures
            r.remote is None,
            r.project is None,
            r.pool@ == "default"@,
            r.binary_name() == "lxc"@,
    {
        Self { remote: None, project: None, pool: owned("default"), binary: "lxc" }
    }

    /// Backend targeting the Incus daemon.
    pub fn incus() -> (r: Self)
        ensures
            r.remote is None,
            r.project is None,
            r.pool@ == "default"@,
            r.binary_name() == "incus"@,
    {
        Self { remote: None, project: None, pool: owned("default"), binary: "incus" }
    }

    /// The backend a `[backend]` section asks for: LXD unless it names
    /// Incus, scoped to its project, with its storage pool (`default` when
    /// none is named).
    pub fn from_config(c: &BackendConfig) -> (r: Self)
        ensures
            r.remote is None,
            r.binary_name() == (if c.kind == Some(BackendKind::Incus) { "incus"@ } else { "lxc"@ }),
            r.project is Some <==> c.project is Some,
            r.project is Some ==> r.project->0@ == c.project->0@,
            r.pool@ == match c.pool {
                Some(p) => p@,
                None => "default"@,
            },
    {
        let mut b = match c.kind {
            Some(BackendKind::Incus) => Self::incus(),
            _ => Self::lxd(),
        };
        b.project = match &c.project {
            Some(p) => Some(owned(p.as_str())),
            None => None,
        };
        if let Some(p) = &c.pool {
            b.pool = owned(p.as_str());
        }
        b
    }

    /// Convenience alias for [`lxd`](Self::lxd).
    pub fn new() -> (r: Self)
        ensures
            r.remote is None,
            r.project is None,
            r.pool@ == "default"@,
            r.binary_name() == "lxc"@,
    {
        Self::lxd()
    }

    /// The binary that is run (`lxc` or `incus`).
    pub fn binary(&self) -> (r: &'static str)
        ensures
            r@ == self.binary_name(),
    {
        self.binary
    }

    /// The start of a command for the default project (network
    /// operations): the binary and `--remote` when set.
    pub open spec fn command_prefix(&self) -> Seq<Seq<char>> {
        seq![self.binary_name()] + opt_flag("--remote"@, self.remote)
    }

    /// The start of a command scoped to the configured project (instance
    /// and profile operations): the binary, `--project` and `--remote`
    /// when set.
    pub open spec fn project_prefix(&self) -> Seq<Seq<char>> {
        seq![self.binary_name()] + opt_flag("--project"@, self.project) + opt_flag(
            "--remote"@,
            self.remote,
        )
    }

    fn push_opt_flag(v: &mut Vec<String>, flag: &str, value: &Option<String>)
        ensures
            strings_view(final(v)@) == strings_view(old(v)@) + opt_flag(flag@, *value),
    {
        match value {
            Some(x) => {
                arg(v, flag);
                arg(v, x.as_str());
                assert(strings_view(v@) =~= strings_view(old(v)@) + opt_flag(flag@, *value));
            },
            None => {
                assert(strings_view(v@) =~= strings_view(old(v)@) + opt_flag(flag@, *value));
            },
        }
    }

    /// Command for the default project.
    pub fn lxc_command(&self) -> (r: Vec<String>)
        ensures
            strings_view(r@) == self.command_prefix(),
    {
        let mut v = Vec::new();
        arg(&mut v, self.binary);
        Self::push_opt_flag(&mut v, "--remote", &self.remote);
        v
    }

    /// Command scoped to the configured project.
    pub fn lxc_project_command(&self) -> (r: Vec<String>)
        ensures
            strings_view(r@) == self.project_prefix(),
    {
        let mut v = Vec::new();
        arg(&mut v, self.binary);
        Self::push_opt_flag(&mut v, "--project", &self.project);
        Self::push_opt_flag(&mut v, "--remote", &self.remote);
        v
    }

    // -------------------------------------------------------------------
    // Project setup
    // -------------------------------------------------------------------

    /// `project create <project> --config features.images=true`.
    pub fn project_create_command(&self, project: &str) -> (r: Vec<String>)
        ensures
            strings_view(r@) == self.project_prefix() + seq![
                "project"@,
                "create"@,
                project@,
                "--config"@,
                "features.images=true"@,
            ],
    {
        let mut v = self.lxc_project_command();
        arg(&mut v, "project");
        arg(&mut v, "create");
        arg(&mut v, project);
        arg(&mut v, "--config");
        arg(&mut v, "features.images=true");
        v
    }

    /// `profile device add default root disk path=/ pool=<pool>`.
    pub fn root_device_add_command(&self) -> (r: Vec<String>)
        ensures
            strings_view(r@) == self.project_prefix() + seq![
                "profile"@,
                "device"@,
                "add"@,
                "default"@,
                "root"@,
                "disk"@,
                "path=/"@,
                "pool="@ + self.pool@,
            ],
    {
        let mut v = self.lxc_project_command();
        arg(&mut v, "profile");
        arg(&mut v, "device");
        arg(&mut v, "add");
        arg(&mut v, "default");
        arg(&mut v, "root");
        arg(&mut v, "disk");
        arg(&mut v, "path=/");
        arg2(&mut v, "pool=", self.pool.as_str());
        v
    }

    /// `profile device set default root pool <pool>`.
    pub fn root_pool_set_command(&self) -> (r: Vec<String>)
        ensures
            strings_view(r@) == self.project_prefix() + seq![
                "profile"@,
                "device"@,
                "set"@,
                "default"@,
                "root"@,
                "pool"@,
                self.pool@,
            ],
    {
        let mut v = self.lxc_project_command();
        arg(&mut v, "profile");
        arg(&mut v, "device");
        arg(&mut v, "set");
        arg(&mut v, "default");
        arg(&mut v, "root");
        arg(&mut v, "pool");
        arg(&mut v, self.pool.as_str());
        v
    }

    /// Start of [`ensure_project`](Self::ensure_project_next): nothing to
    /// do without a project, else create it.
    pub fn ensure_project_start(&self) -> (r: ProjectAction)
        ensures
            action_view(r) == project_start(*self),
            match self.project {
                None => r is Done,
                Some(p) => r matches ProjectAction::Run { step, argv } && step == ProjectStep::CreateProject
                    && strings_view(argv@) == self.project_prefix() + seq![
                    "project"@,
                    "create"@,
                    p@,
                    "--config"@,
                    "features.images=true"@,
                ],
            },
    {
        match &self.project {
            None => ProjectAction::Done,
            Some(p) => ProjectAction::Run {
                step: ProjectStep::CreateProject,
                argv: self.project_create_command(p.as_str()),
            },
        }
    }

    /// Ensure the configured project exists and its default profile has a
    /// root disk on the configured pool, one command at a time: given the
    /// step just run and how it went, what to do next.
    ///
    /// "already exists" from creating the project is ignored (idempotent);
    /// "already exists" from adding the root device means it is there from
    /// an earlier run, so its pool is set instead. Any other failure stops.
    pub fn ensure_project_next(&self, step: ProjectStep, outcome: StepOutcome) -> (r: ProjectAction)
        ensures
            action_view(r) == ensure_project_transition(*self, step, outcome),
    {
        match step {
            ProjectStep::CreateProject => match outcome {
                StepOutcome::Failed => ProjectAction::Fail,
                _ => ProjectAction::Run {
                    step: ProjectStep::AddRootDevice,
                    argv: self.root_device_add_command(),
                },
            },
            ProjectStep::AddRootDevice => match outcome {
                StepOutcome::Success => ProjectAction::Done,
                StepOutcome::AlreadyExists => ProjectAction::Run {
                    step: ProjectStep::SetRootPool,
                    argv: self.root_pool_set_command(),
                },
                StepOutcome::Failed => ProjectAction::Fail,
            },
            ProjectStep::SetRootPool => match outcome {
                StepOutcome::Success => ProjectAction::Done,
                _ => ProjectAction::Fail,
            },
        }
    }

    /// Ensure the configured project exists and its default profile has
    /// a root disk on the configured pool, running each command through
    /// `runner` (see [`ensure_project_next`](Self::ensure_project_next)).
    /// Without a project nothing is run. The first failure that is not an
    /// "already exists" is returned.
    pub fn ensure_project<R: CommandRunner>(&self, runner: &mut Logged<R>) -> (r: Result<(), CommandError>)
        ensures
            self.project is None ==> r is Ok,
            final(runner).history() == old(runner).history() + added_since(
                old(runner).history(),
                final(runner).history(),
            ),
            project_run(*self, project_start(*self), added_since(old(runner).history(), final(runner).history()), r),
    {
        let action = self.ensure_project_start();
        self.project_from(runner, action)
    }

    /// Carry project setup on from `action`.
    fn project_from<R: CommandRunner>(&self, runner: &mut Logged<R>, action: ProjectAction) -> (r: Result<
        (),
        CommandError,
    >)
        ensures
            final(runner).history() == old(runner).history() + added_since(
                old(runner).history(),
                final(runner).history(),
            ),
            project_run(*self, action_view(action), added_since(old(runner).history(), final(runner).history()), r),
        decreases
            match action {
                ProjectAction::Run { step, .. } => 3 - step_rank(step),
                _ => 0int,
            },
    {
        let ghost h0 = runner.history();
        let ghost before = action;
        match action {
            ProjectAction::Run { step, argv } => {
                let result = runner.run(&argv);
                let ghost h1 = runner.history();
                let outcome = step_outcome(&result);
                let next = self.ensure_project_next(step, outcome);
                proof {
                    law_project_setup_moves_forward(*self, step, outcome);
                }
                let ghost rec = Ran::Run(strings_view(argv@), result);
                proof {
                    assert(h1 =~= h0 + seq![rec]);
                }
                match next {
                    ProjectAction::Fail => {
                        proof {
                            assert(added_since(h0, h1) =~= seq![rec]);
                        }
                        result
                    },
                    _ => {
                        let ghost nv = action_view(next);
                        let r = self.project_from(runner, next);
                        proof {
                            let h2 = runner.history();
                            let rest = added_since(h1, h2);
                            let whole = seq![rec] + rest;
                            assert(whole.drop_first() =~= rest);
                            assert(whole[0] == rec);
                            assert(h2 =~= h0 + whole);
                            assert(added_since(h0, h2) =~= whole);
                        }
                        r
                    },
                }
            },
            _ => {
                proof {
                    assert(added_since(h0, runner.history()) =~= Seq::<Ran>::empty());
                    assert(runner.history() =~= h0 + Seq::<Ran>::empty());
                }
                Ok(())
            },
        }
    }

    // -------------------------------------------------------------------
    // Instances
    // -------------------------------------------------------------------

    /// `init <image> <name>` with the options `config` asks for.
    pub fn create_command(&self, name: &str, config: &InstanceConfig) -> (r: Vec<String>)
        ensures
            strings_view(r@) == self.project_prefix() + create_args(name@, *config),
    {
        let mut v = self.lxc_project_command();
        let ghost p = strings_view(v@);
        push_create_head(&mut v, name, config);
        push_create_tail(&mut v, config);
        assert(strings_view(v@) =~= self.project_prefix() + create_args(name@, *config));
        v
    }

    /// Options of `create` that do not apply to VMs and are skipped there,
    /// each as the warning to log.
    pub fn create_warnings(config: &InstanceConfig) -> (r: Vec<&'static str>)
        ensures
            r@.len() == (if config.vm {
                (if config.processes is Some { 1int } else { 0 }) + (if config.disk_priority is Some {
                    1int
                } else {
                    0
                }) + (if config.memory_enforce is Some { 1int } else { 0 }) + (if config.security_nesting {
                    1int
                } else {
                    0
                })
            } else {
                0
            }),
    {
        let mut w: Vec<&'static str> = Vec::new();
        if config.vm {
            if config.processes.is_some() {
                w.push("limits.processes is ignored on VMs");
            }
            if config.disk_priority.is_some() {
                w.push("limits.disk.priority is ignored on VMs");
            }
            if config.memory_enforce.is_some() {
                w.push("limits.memory.enforce is ignored on VMs");
            }
            if config.security_nesting {
                w.push("security.nesting is ignored on VMs");
            }
        }
        w
    }

    /// `start <name>`.
    pub fn start_command(&self, name: &str) -> (r: Vec<String>)
        ensures
            strings_view(r@) == self.project_prefix() + seq!["start"@, name@],
    {
        let mut v = self.lxc_project_command();
        arg(&mut v, "start");
        arg(&mut v, name);
        v
    }

    /// `delete --force <name>`.
    pub fn delete_command(&self, name: &str) -> (r: Vec<String>)
        ensures
            strings_view(r@) == self.project_prefix() + seq!["delete"@, "--force"@, name@],
    {
        let mut v = self.lxc_project_command();
        arg(&mut v, "delete");
        arg(&mut v, "--force");
        arg(&mut v, name);
        v
    }

    /// `config device add <name> <dev_name> ...` for a disk or proxy device.
    pub fn add_device_command(&self, name: &str, dev_name: &str, device: &Device) -> (r: Vec<String>)
        ensures
            strings_view(r@) == self.project_prefix() + device_args(name@, dev_name@, *device),
    {
        let mut v = self.lxc_project_command();
        arg(&mut v, "config");
        arg(&mut v, "device");
        arg(&mut v, "add");
        arg(&mut v, name);
        arg(&mut v, dev_name);
        match device {
            Device::Disk { source, target, access } => {
                arg(&mut v, "disk");
                arg2(&mut v, "source=", source.as_str());
                arg2(&mut v, "path=", target.as_str());
                match access {
                    AccessMode::ReadOnly => arg(&mut v, "readonly=true"),
                    AccessMode::ReadWrite => {},
                }
            },
            Device::Proxy { connect, listen, uid, gid, host_uid, host_gid, bind, mode } => {
                arg(&mut v, "proxy");
                arg2(&mut v, "bind=", bind.as_str());
                arg2(&mut v, "connect=", connect.as_str());
                arg2(&mut v, "listen=", listen.as_str());
                arg2(&mut v, "mode=", mode.as_str());
                arg_num(&mut v, "uid=", *uid as u64);
                arg_num(&mut v, "gid=", *gid as u64);
                arg_num(&mut v, "security.uid=", *host_uid as u64);
                arg_num(&mut v, "security.gid=", *host_gid as u64);
            },
        }
        assert(strings_view(v@) =~= self.project_prefix() + device_args(name@, dev_name@, *device));
        v
    }

    /// `config device add <name> eth0 nic nictype=bridged parent=<bridge>`
    /// with bandwidth limits when given.
    pub fn attach_to_bridge_command(
        &self,
        name: &str,
        bridge_name: &str,
        network_ingress: &Option<String>,
        network_egress: &Option<String>,
    ) -> (r: Vec<String>)
        ensures
            strings_view(r@) == self.project_prefix() + seq![
                "config"@,
                "device"@,
                "add"@,
                name@,
                "eth0"@,
                "nic"@,
                "nictype=bridged"@,
                "parent="@ + bridge_name@,
            ] + kv("limits.ingress="@, *network_ingress) + kv("limits.egress="@, *network_egress),
    {
        let mut v = self.lxc_project_command();
        arg(&mut v, "config");
        arg(&mut v, "device");
        arg(&mut v, "add");
        arg(&mut v, name);
        arg(&mut v, "eth0");
        arg(&mut v, "nic");
        arg(&mut v, "nictype=bridged");
        arg2(&mut v, "parent=", bridge_name);
        let ghost s0 = strings_view(v@);
        match network_ingress {
            Some(x) => arg2(&mut v, "limits.ingress=", x.as_str()),
            None => {},
        }
        let ghost s1 = strings_view(v@);
        assert(s1 =~= s0 + kv("limits.ingress="@, *network_ingress));
        match network_egress {
            Some(x) => arg2(&mut v, "limits.egress=", x.as_str()),
            None => {},
        }
        assert(strings_view(v@) =~= s1 + kv("limits.egress="@, *network_egress));
        v
    }

    /// `config set <name> --property description=<desc>`.
    pub fn set_description_command(&self, name: &str, desc: &str) -> (r: Vec<String>)
        ensures
            strings_view(r@) == self.project_prefix() + seq![
                "config"@,
                "set"@,
                name@,
                "--property"@,
                "description="@ + desc@,
            ],
    {
        let mut v = self.lxc_project_command();
        arg(&mut v, "config");
        arg(&mut v, "set");
        arg(&mut v, name);
        arg(&mut v, "--property");
        arg2(&mut v, "description=", desc);
        v
    }

    /// `exec <name> --user <uid> --group <gid> --cwd <cwd>`, then
    /// `--env K=V` for each variable, `HOME` when given, the proxy
    /// variables when a proxy URL is given, `--` and the command.
    pub fn exec_command(
        &self,
        name: &str,
        command: &Vec<String>,
        env: &Vec<(String, String)>,
        cwd: &str,
        uid: u32,
        gid: u32,
        home: &Option<String>,
        proxy_url: &Option<String>,
    ) -> (r: Vec<String>)
        ensures
            strings_view(r@) == exec_argv(*self, name@, strings_view(command@), env@, cwd@, uid, gid, *home, *proxy_url),
    {
        let mut v = self.lxc_project_command();
        arg(&mut v, "exec");
        arg(&mut v, name);
        arg(&mut v, "--user");
        let u = crate::strings::u64_string(uid as u64);
        arg(&mut v, u.as_str());
        arg(&mut v, "--group");
        let g = crate::strings::u64_string(gid as u64);
        arg(&mut v, g.as_str());
        arg(&mut v, "--cwd");
        arg(&mut v, cwd);
        let ghost s0 = strings_view(v@);
        push_env(&mut v, env);
        push_home_and_proxy(&mut v, home, proxy_url);
        arg(&mut v, "--");
        args(&mut v, command);
        assert(strings_view(v@) =~= self.project_prefix() + seq![
            "exec"@,
            name@,
            "--user"@,
            decimal(uid as nat),
            "--group"@,
            decimal(gid as nat),
            "--cwd"@,
            cwd@,
        ] + env_args(env@) + home_args(*home) + proxy_args(*proxy_url) + seq!["--"@]
            + strings_view(command@));
        v
    }

    /// `exec <name> -- <command...>` (output captured by the caller).
    pub fn exec_stdout_command(&self, name: &str, command: &Vec<String>) -> (r: Vec<String>)
        ensures
            strings_view(r@) == self.project_prefix() + seq!["exec"@, name@, "--"@] + strings_view(
                command@,
            ),
    {
        let mut v = self.lxc_project_command();
        arg(&mut v, "exec");
        arg(&mut v, name);
        arg(&mut v, "--");
        args(&mut v, command);
        v
    }

    /// `file push - <name>/<path> --create-dirs --mode <mode> --uid <uid>
    /// --gid <gid>` (content on standard input).
    pub fn write_file_command(&self, name: &str, path: &str, mode: &str, uid: u32, gid: u32) -> (r: Vec<
        String,
    >)
        ensures
            strings_view(r@) == self.project_prefix() + seq![
                "file"@,
                "push"@,
                "-"@,
                name@ + "/"@ + path@,
                "--create-dirs"@,
                "--mode"@,
                mode@,
                "--uid"@,
                decimal(uid as nat),
                "--gid"@,
                decimal(gid as nat),
            ],
    {
        let mut v = self.lxc_project_command();
        arg(&mut v, "file");
        arg(&mut v, "push");
        arg(&mut v, "-");
        let mut d = Vec::new();
        push_str(&mut d, name);
        push_str(&mut d, "/");
        push_str(&mut d, path);
        let dest = string_of(&d);
        arg(&mut v, dest.as_str());
        arg(&mut v, "--create-dirs");
        arg(&mut v, "--mode");
        arg(&mut v, mode);
        arg(&mut v, "--uid");
        let u = crate::strings::u64_string(uid as u64);
        arg(&mut v, u.as_str());
        arg(&mut v, "--gid");
        let g = crate::strings::u64_string(gid as u64);
        arg(&mut v, g.as_str());
        v
    }

    /// How a failed `file push` is described: `<binary> file push ... <name>/<path>`.
    pub fn write_file_failure_argv(&self, name: &str, path: &str) -> (r: String)
        ensures
            r@ == self.binary_name() + " file push ... "@ + name@ + "/"@ + path@,
    {
        let mut d = Vec::new();
        push_str(&mut d, self.binary);
        push_str(&mut d, " file push ... ");
        push_str(&mut d, name);
        push_str(&mut d, "/");
        push_str(&mut d, path);
        string_of(&d)
    }

    // -------------------------------------------------------------------
    // Networks and ACLs
    // -------------------------------------------------------------------

    /// `network create <name> --type bridge`.
    pub fn create_network_command(&self, name: &str) -> (r: Vec<String>)
        ensures
            strings_view(r@) == self.command_prefix() + seq![
                "network"@,
                "create"@,
                name@,
                "--type"@,
                "bridge"@,
            ],
    {
        let mut v = self.lxc_command();
        arg(&mut v, "network");
        arg(&mut v, "create");
        arg(&mut v, name);
        arg(&mut v, "--type");
        arg(&mut v, "bridge");
        v
    }

    /// `network delete <name>`.
    pub fn delete_network_command(&self, name: &str) -> (r: Vec<String>)
        ensures
            strings_view(r@) == self.command_prefix() + seq!["network"@, "delete"@, name@],
    {
        let mut v = self.lxc_command();
        arg(&mut v, "network");
        arg(&mut v, "delete");
        arg(&mut v, name);
        v
    }

    /// `network get <name> ipv4.address`.
    pub fn get_network_ipv4_command(&self, name: &str) -> (r: Vec<String>)
        ensures
            strings_view(r@) == self.command_prefix() + seq![
                "network"@,
                "get"@,
                name@,
                "ipv4.address"@,
            ],
    {
        let mut v = self.lxc_command();
        arg(&mut v, "network");
        arg(&mut v, "get");
        arg(&mut v, name);
        arg(&mut v, "ipv4.address");
        v
    }

    /// `network set <name> raw.dnsmasq=<config>`.
    pub fn set_network_dnsmasq_command(&self, name: &str, dnsmasq: &str) -> (r: Vec<String>)
        ensures
            strings_view(r@) == self.command_prefix() + seq![
                "network"@,
                "set"@,
                name@,
                "raw.dnsmasq="@ + dnsmasq@,
            ],
    {
        let mut v = self.lxc_command();
        arg(&mut v, "network");
        arg(&mut v, "set");
        arg(&mut v, name);
        arg2(&mut v, "raw.dnsmasq=", dnsmasq);
        v
    }

    /// `network set <net> security.acls=<acl>`.
    pub fn attach_acl_to_network_command(&self, net: &str, acl: &str) -> (r: Vec<String>)
        ensures
            strings_view(r@) == self.command_prefix() + seq![
                "network"@,
                "set"@,
                net@,
                "security.acls="@ + acl@,
            ],
    {
        let mut v = self.lxc_command();
        arg(&mut v, "network");
        arg(&mut v, "set");
        arg(&mut v, net);
        arg2(&mut v, "security.acls=", acl);
        v
    }

    /// `network set <name> security.acls.default.egress.action=reject`.
    pub fn set_network_egress_reject_command(&self, name: &str) -> (r: Vec<String>)
        ensures
            strings_view(r@) == self.command_prefix() + seq![
                "network"@,
                "set"@,
                name@,
                "security.acls.default.egress.action=reject"@,
            ],
    {
        let mut v = self.lxc_command();
        arg(&mut v, "network");
        arg(&mut v, "set");
        arg(&mut v, name);
        arg(&mut v, "security.acls.default.egress.action=reject");
        v
    }

    /// `network acl create <name>`.
    pub fn create_acl_command(&self, name: &str) -> (r: Vec<String>)
        ensures
            strings_view(r@) == self.command_prefix() + seq!["network"@, "acl"@, "create"@, name@],
    {
        let mut v = self.lxc_command();
        arg(&mut v, "network");
        arg(&mut v, "acl");
        arg(&mut v, "create");
        arg(&mut v, name);
        v
    }

    /// `network acl rule add <acl> <rule arguments>`.
    pub fn add_acl_rule_command(&self, acl: &str, rule: &NetworkAclRule) -> (r: Vec<String>)
        ensures
            strings_view(r@) == self.command_prefix() + seq![
                "network"@,
                "acl"@,
                "rule"@,
                "add"@,
                acl@,
            ] + acl_rule_args(*rule),
    {
        let mut v = self.lxc_command();
        arg(&mut v, "network");
        arg(&mut v, "acl");
        arg(&mut v, "rule");
        arg(&mut v, "add");
        arg(&mut v, acl);
        let cli = rule_to_cli_args(rule);
        args(&mut v, &cli);
        v
    }

    /// `network acl delete <name>`.
    pub fn delete_acl_command(&self, name: &str) -> (r: Vec<String>)
        ensures
            strings_view(r@) == self.command_prefix() + seq!["network"@, "acl"@, "delete"@, name@],
    {
        let mut v = self.lxc_command();
        arg(&mut v, "network");
        arg(&mut v, "acl");
        arg(&mut v, "delete");
        arg(&mut v, name);
        v
    }
}

// ---------------------------------------------------------------------------
// Specifications of the argument lists
// ---------------------------------------------------------------------------

pub open spec fn disk_args(disk_size: Option<String>) -> Seq<Seq<char>> {
    match disk_size {
        Some(s) => seq!["--device"@, "root,size="@ + s@],
        None => Seq::empty(),
    }
}

pub open spec fn vm_args(vm: bool, secure_boot: bool) -> Seq<Seq<char>> {
    if vm {
        seq!["--vm"@] + (if !secure_boot {
            config_kv("boot.mode=uefi-nosecureboot"@)
        } else {
            Seq::empty()
        })
    } else {
        Seq::empty()
    }
}

pub open spec fn num_config(key: Seq<char>, n: Option<u32>) -> Seq<Seq<char>> {
    match n {
        Some(x) => config_kv(key + decimal(x as nat)),
        None => Seq::empty(),
    }
}

pub open spec fn text_config(key: Seq<char>, t: Option<String>) -> Seq<Seq<char>> {
    match t {
        Some(x) => config_kv(key + x@),
        None => Seq::empty(),
    }
}

/// Arguments that only apply to containers (dropped for VMs).
pub open spec fn container_only(vm: bool, a: Seq<Seq<char>>) -> Seq<Seq<char>> {
    if vm {
        Seq::empty()
    } else {
        a
    }
}

/// The arguments of `init` after the prefix.
pub open spec fn create_args(name: Seq<char>, c: InstanceConfig) -> Seq<Seq<char>> {
    create_head(name, c) + create_tail(c)
}

/// `init`, the image, the name and the options every instance kind takes.
pub open spec fn create_head(name: Seq<char>, c: InstanceConfig) -> Seq<Seq<char>> {
    seq!["init"@, c.image@, name] + disk_args(c.disk_size) + (if c.ephemeral {
        seq!["--ephemeral"@]
    } else {
        Seq::empty()
    }) + vm_args(c.vm, c.secure_boot) + num_config("limits.cpu="@, c.cpu) + text_config(
        "limits.memory="@,
        c.memory,
    )
}

pub open spec fn processes_args(p: Option<i32>) -> Seq<Seq<char>> {
    match p {
        Some(n) => config_kv("limits.processes="@ + signed_decimal(n as int)),
        None => Seq::empty(),
    }
}

/// The container-only limits, the id map and the fixed security options.
pub open spec fn create_tail(c: InstanceConfig) -> Seq<Seq<char>> {
    container_only(c.vm, processes_args(c.processes)) + container_only(
        c.vm,
        num_config("limits.disk.priority="@, c.disk_priority),
    ) + container_only(c.vm, text_config("limits.memory.enforce="@, c.memory_enforce))
        + text_config("raw.idmap="@, c.raw_idmap) + container_only(
        c.vm,
        if c.security_nesting {
            config_kv("security.nesting=true"@)
        } else {
            Seq::empty()
        },
    ) + config_kv("security.devlxd=false"@)
}

/// The arguments of `config device add` after the prefix.
pub open spec fn device_args(name: Seq<char>, dev_name: Seq<char>, d: Device) -> Seq<Seq<char>> {
    seq!["config"@, "device"@, "add"@, name, dev_name] + match d {
        Device::Disk { source, target, access } => seq![
            "disk"@,
            "source="@ + source@,
            "path="@ + target@,
        ] + (if access == AccessMode::ReadOnly {
            seq!["readonly=true"@]
        } else {
            Seq::empty()
        }),
        Device::Proxy { connect, listen, uid, gid, host_uid, host_gid, bind, mode } => seq![
            "proxy"@,
            "bind="@ + (match bind {
                crate::backend::ProxyBind::Instance => "instance"@,
                crate::backend::ProxyBind::Host => "host"@,
            }),
            "connect="@ + connect@,
            "listen="@ + listen@,
            "mode="@ + mode@,
            "uid="@ + decimal(uid as nat),
            "gid="@ + decimal(gid as nat),
            "security.uid="@ + decimal(host_uid as nat),
            "security.gid="@ + decimal(host_gid as nat),
        ],
    }
}

/// `key=value` as one argument when the value is present.
pub open spec fn kv(key: Seq<char>, v: Option<String>) -> Seq<Seq<char>> {
    match v {
        Some(x) => seq![key + x@],
        None => Seq::empty(),
    }
}

/// `--env K=V` for each variable, in order.
pub open spec fn env_args(env: Seq<(String, String)>) -> Seq<Seq<char>>
    decreases env.len(),
{
    if env.len() == 0 {
        Seq::empty()
    } else {
        env_args(env.drop_last()) + seq!["--env"@, env.last().0@ + "="@ + env.last().1@]
    }
}

pub open spec fn home_args(home: Option<String>) -> Seq<Seq<char>> {
    match home {
        Some(h) => seq!["--env"@, "HOME="@ + h@],
        None => Seq::empty(),
    }
}

/// The command line that runs `command` in instance `name` (see
/// [`LxcBackend::exec_command`]).
pub open spec fn exec_argv(
    b: LxcBackend,
    name: Seq<char>,
    command: Seq<Seq<char>>,
    env: Seq<(String, String)>,
    cwd: Seq<char>,
    uid: u32,
    gid: u32,
    home: Option<String>,
    proxy: Option<String>,
) -> Seq<Seq<char>> {
    b.project_prefix() + seq![
        "exec"@,
        name,
        "--user"@,
        decimal(uid as nat),
        "--group"@,
        decimal(gid as nat),
        "--cwd"@,
        cwd,
    ] + env_args(env) + home_args(home) + proxy_args(proxy) + seq!["--"@] + command
}

/// `a` sets variable `e` at `i`: `--env` then `K=V`.
pub open spec fn sets_env_at(a: Seq<Seq<char>>, i: int, e: (String, String)) -> bool {
    a[i] == "--env"@ && a[i + 1] == e.0@ + "="@ + e.1@
}

/// `--env K=V` for each variable, two arguments each, in order.
proof fn lemma_env_args(env: Seq<(String, String)>)
    ensures
        env_args(env).len() == 2 * env.len(),
        forall|e: int| 0 <= e < env.len() ==> sets_env_at(env_args(env), 2 * e, #[trigger] env[e]),
    decreases env.len(),
{
    if env.len() > 0 {
        let init = env.drop_last();
        lemma_env_args(init);
        let last = seq!["--env"@, env.last().0@ + "="@ + env.last().1@];
        assert(env_args(env) == env_args(init) + last);
        assert forall|e: int| 0 <= e < env.len() implies sets_env_at(env_args(env), 2 * e, #[trigger] env[e]) by {
            if e < init.len() {
                assert(env[e] == init[e]);
                assert(sets_env_at(env_args(init), 2 * e, init[e]));
                assert(env_args(env)[2 * e] == env_args(init)[2 * e]);
                assert(env_args(env)[2 * e + 1] == env_args(init)[2 * e + 1]);
            } else {
                assert(env_args(env)[2 * e] == last[0]);
                assert(env_args(env)[2 * e + 1] == last[1]);
            }
        }
    }
}

/// A command run in the instance is the `exec` of that instance with the
/// user, group and directory asked for, and the command follows the `--`
/// that ends the options, unchanged.
pub proof fn law_exec_runs_the_command(
    b: LxcBackend,
    name: Seq<char>,
    command: Seq<Seq<char>>,
    env: Seq<(String, String)>,
    cwd: Seq<char>,
    uid: u32,
    gid: u32,
    home: Option<String>,
    proxy: Option<String>,
)
    ensures
        ({
            let a = exec_argv(b, name, command, env, cwd, uid, gid, home, proxy);
            let sep = a.len() - command.len() - 1;
            let o = b.project_prefix().len() as int;
            &&& o + 8 <= sep
            &&& a[sep] == "--"@
            &&& a.skip(sep + 1) == command
            &&& a[o] == "exec"@ && a[o + 1] == name
            &&& a[o + 2] == "--user"@ && a[o + 3] == decimal(uid as nat)
            &&& a[o + 4] == "--group"@ && a[o + 5] == decimal(gid as nat)
            &&& a[o + 6] == "--cwd"@ && a[o + 7] == cwd
        }),
{
    let head = b.project_prefix() + seq![
        "exec"@,
        name,
        "--user"@,
        decimal(uid as nat),
        "--group"@,
        decimal(gid as nat),
        "--cwd"@,
        cwd,
    ];
    let a = exec_argv(b, name, command, env, cwd, uid, gid, home, proxy);
    let opts = env_args(env) + home_args(home) + proxy_args(proxy);
    assert(a =~= head + opts + (seq!["--"@] + command));
    let sep = a.len() - command.len() - 1;
    assert(sep == head.len() + opts.len());
    assert(a.skip(sep + 1) =~= command);
    let o = b.project_prefix().len() as int;
    assert(a[sep] == "--"@);
    assert(a[o] == head[o] && a[o + 1] == head[o + 1]);
    assert(a[o + 2] == head[o + 2] && a[o + 3] == head[o + 3]);
    assert(a[o + 4] == head[o + 4] && a[o + 5] == head[o + 5]);
    assert(a[o + 6] == head[o + 6] && a[o + 7] == head[o + 7]);
}

/// `a` holds option `v` after `--env` somewhere before position `sep`.
pub open spec fn env_option_before(a: Seq<Seq<char>>, sep: int, v: Seq<char>) -> bool {
    exists|i: int| 0 <= i && i + 1 < sep && a[i] == "--env"@ && #[trigger] a[i + 1] == v
}

/// A command run in the instance gets its environment: before the `--`
/// that ends the options, `--env` sets each variable given, `HOME` when
/// given, and, when a proxy URL is given, `HTTP_PROXY` and `HTTPS_PROXY`
/// to it and `NO_PROXY` to nothing, so that all its web traffic goes
/// through the proxy.
pub proof fn law_exec_uses_the_proxy(
    b: LxcBackend,
    name: Seq<char>,
    command: Seq<Seq<char>>,
    env: Seq<(String, String)>,
    cwd: Seq<char>,
    uid: u32,
    gid: u32,
    home: Option<String>,
    proxy: Option<String>,
)
    ensures
        ({
            let a = exec_argv(b, name, command, env, cwd, uid, gid, home, proxy);
            let sep = a.len() - command.len() - 1;
            &&& forall|e: int| 0 <= e < env.len() ==> env_option_before(
                a,
                sep,
                (#[trigger] env[e]).0@ + "="@ + env[e].1@,
            )
            &&& home matches Some(h) ==> env_option_before(a, sep, "HOME="@ + h@)
            &&& proxy matches Some(p) ==> {
                &&& env_option_before(a, sep, "HTTP_PROXY="@ + p@)
                &&& env_option_before(a, sep, "HTTPS_PROXY="@ + p@)
                &&& env_option_before(a, sep, "NO_PROXY="@)
            }
        }),
{
    let head = b.project_prefix() + seq![
        "exec"@,
        name,
        "--user"@,
        decimal(uid as nat),
        "--group"@,
        decimal(gid as nat),
        "--cwd"@,
        cwd,
    ];
    let a = exec_argv(b, name, command, env, cwd, uid, gid, home, proxy);
    let opts = env_args(env) + home_args(home) + proxy_args(proxy);
    assert(a =~= head + opts + (seq!["--"@] + command));
    let sep = a.len() - command.len() - 1;
    assert(sep == head.len() + opts.len());
    let e0 = head.len() as int;
    lemma_env_args(env);
    assert forall|e: int| 0 <= e < env.len() implies env_option_before(
        a,
        sep,
        (#[trigger] env[e]).0@ + "="@ + env[e].1@,
    ) by {
        let i = e0 + 2 * e;
        assert(sets_env_at(env_args(env), 2 * e, env[e]));
        assert(a[i] == opts[2 * e]);
        assert(a[i + 1] == opts[2 * e + 1]);
    }
    let k = e0 + env_args(env).len();
    if let Some(h) = home {
        assert(a[k] == "--env"@ && a[k + 1] == "HOME="@ + h@);
    }
    if let Some(p) = proxy {
        let k2 = k + home_args(home).len();
        assert(a[k2] == "--env"@ && a[k2 + 1] == "HTTP_PROXY="@ + p@);
        let j = k2 + 2;
        assert(a[j] == "--env"@ && a[j + 1] == "HTTPS_PROXY="@ + p@);
        let l = k2 + 4;
        assert(a[l] == "--env"@ && a[l + 1] == "NO_PROXY="@);
    }
}

pub open spec fn proxy_args(proxy: Option<String>) -> Seq<Seq<char>> {
    match proxy {
        Some(p) => seq![
            "--env"@,
            "HTTP_PROXY="@ + p@,
            "--env"@,
            "HTTPS_PROXY="@ + p@,
            "--env"@,
            "NO_PROXY="@,
        ],
        None => Seq::empty(),
    }
}

// ---------------------------------------------------------------------------
// Project setup steps
// ---------------------------------------------------------------------------

/// A step of making sure the project exists.
#[derive(Debug, Clone, Copy, PartialEq, Eq, Structural)]
pub enum ProjectStep {
    CreateProject,
    AddRootDevice,
    SetRootPool,
}

/// How a command went.
#[derive(Debug, Clone, Copy, PartialEq, Eq, Structural)]
pub enum StepOutcome {
    Success,
    /// Non-zero exit whose standard error mentions "already exists".
    AlreadyExists,
    Failed,
}

/// What to do next.
#[derive(Debug)]
pub enum ProjectAction {
    /// Run this command, then report how it went for `step`.
    Run { step: ProjectStep, argv: Vec<String> },
    /// The project is ready.
    Done,
    /// Stop with the last command's error.
    Fail,
}

/// A [`ProjectAction`] with its command line taken as text.
pub enum ActionView {
    Run(ProjectStep, Seq<Seq<char>>),
    Done,
    Fail,
}

pub open spec fn action_view(a: ProjectAction) -> ActionView {
    match a {
        ProjectAction::Run { step, argv } => ActionView::Run(step, strings_view(argv@)),
        ProjectAction::Done => ActionView::Done,
        ProjectAction::Fail => ActionView::Fail,
    }
}

/// How a command went, for project setup (see [`step_outcome`]).
pub open spec fn outcome_of(result: Result<(), CommandError>) -> StepOutcome {
    match result {
        Ok(()) => StepOutcome::Success,
        Err(CommandError::NonZero { stderr: Some(s), .. }) => if contains_text(s@, "already exists"@) {
            StepOutcome::AlreadyExists
        } else {
            StepOutcome::Failed
        },
        Err(_) => StepOutcome::Failed,
    }
}

/// The first action of project setup: nothing without a project, else
/// create it.
pub open spec fn project_start(b: LxcBackend) -> ActionView {
    match b.project {
        None => ActionView::Done,
        Some(p) => ActionView::Run(
            ProjectStep::CreateProject,
            b.project_prefix() + seq!["project"@, "create"@, p@, "--config"@, "features.images=true"@],
        ),
    }
}

/// `recs` is project setup carried on from `action`: each command the
/// steps ask for is run, its outcome picks the next step, and a failure
/// stops with that command's answer as the result `r`.
pub open spec fn project_run(b: LxcBackend, action: ActionView, recs: Seq<Ran>, r: Result<(), CommandError>) -> bool
    decreases recs.len(),
{
    match action {
        ActionView::Run(step, argv) => {
            &&& recs.len() >= 1
            &&& match recs[0] {
                Ran::Run(a, res) => a == argv && match ensure_project_transition(b, step, outcome_of(res)) {
                    ActionView::Fail => recs.len() == 1 && r == res,
                    next => project_run(b, next, recs.drop_first(), r),
                },
                Ran::Stdout(..) => false,
            }
        },
        _ => recs.len() == 0 && r is Ok,
    }
}

/// How a command went, for project setup: a non-zero exit whose standard
/// error mentions "already exists" is told apart from other failures.
pub fn step_outcome(result: &Result<(), CommandError>) -> (r: StepOutcome)
    ensures
        r == outcome_of(*result),
        r == match result {
            Ok(()) => StepOutcome::Success,
            Err(CommandError::NonZero { stderr: Some(s), .. }) => if contains_text(s@, "already exists"@) {
                StepOutcome::AlreadyExists
            } else {
                StepOutcome::Failed
            },
            Err(_) => StepOutcome::Failed,
        },
{
    match result {
        Ok(()) => StepOutcome::Success,
        Err(CommandError::NonZero { stderr: Some(s), .. }) => if str_contains(s.as_str(), "already exists") {
            StepOutcome::AlreadyExists
        } else {
            StepOutcome::Failed
        },
        Err(_) => StepOutcome::Failed,
    }
}

/// The text before the first `/`, or all of it.
pub open spec fn gateway_of(raw: Seq<char>) -> Seq<char> {
    match crate::cli::find_char(raw, '/') {
        Some(i) => raw.take(i),
        None => raw,
    }
}

/// The gateway address in what `network get <name> ipv4.address` prints
/// (`10.0.0.1/24`): the text before the first `/`.
pub fn gateway_text(raw: &str) -> (r: String)
    ensures
        r@ == gateway_of(raw@),
        r@ == match crate::cli::find_char(raw@, '/') {
            Some(i) => raw@.take(i),
            None => raw@,
        },
{
    let v = chars_of(raw);
    let k = crate::cli::find_char_from(&v, '/', 0);
    proof {
        crate::cli::lemma_find_char(v@, '/', k as int);
        if k == v.len() {
            assert(v@.take(k as int) =~= v@);
        }
    }
    let t = crate::strings::slice_chars(&v, 0, k);
    string_of(&t)
}

/// The transition table of project setup.
pub open spec fn ensure_project_transition(
    b: LxcBackend,
    step: ProjectStep,
    outcome: StepOutcome,
) -> ActionView {
    match step {
        ProjectStep::CreateProject => match outcome {
            StepOutcome::Failed => ActionView::Fail,
            _ => ActionView::Run(
                ProjectStep::AddRootDevice,
                b.project_prefix() + seq![
                    "profile"@,
                    "device"@,
                    "add"@,
                    "default"@,
                    "root"@,
                    "disk"@,
                    "path=/"@,
                    "pool="@ + b.pool@,
                ],
            ),
        },
        ProjectStep::AddRootDevice => match outcome {
            StepOutcome::Success => ActionView::Done,
            StepOutcome::AlreadyExists => ActionView::Run(
                ProjectStep::SetRootPool,
                b.project_prefix() + seq![
                    "profile"@,
                    "device"@,
                    "set"@,
                    "default"@,
                    "root"@,
                    "pool"@,
                    b.pool@,
                ],
            ),
            StepOutcome::Failed => ActionView::Fail,
        },
        ProjectStep::SetRootPool => match outcome {
            StepOutcome::Success => ActionView::Done,
            _ => ActionView::Fail,
        },
    }
}

/// How far along project setup a step is.
pub open spec fn step_rank(step: ProjectStep) -> int {
    match step {
        ProjectStep::CreateProject => 0,
        ProjectStep::AddRootDevice => 1,
        ProjectStep::SetRootPool => 2,
    }
}

/// Project setup always moves forward: each command it asks for comes
/// later in the sequence than the one just reported, so it ends after at
/// most three commands, whatever they answer.
pub proof fn law_project_setup_moves_forward(b: LxcBackend, step: ProjectStep, outcome: StepOutcome)
    ensures
        ensure_project_transition(b, step, outcome) matches ActionView::Run(next, _)
            ==> step_rank(next) > step_rank(step),
        step_rank(step) <= 2,
{
}

/// Setting the project up again once it is set up succeeds: creating the
/// project and adding its root device answer "already exists", which is no
/// failure, and the root device's pool is set instead.
pub proof fn law_project_setup_is_repeatable(b: LxcBackend, created: CommandError, added: CommandError)
    requires
        b.project is Some,
        outcome_of(Err(created)) == StepOutcome::AlreadyExists,
        outcome_of(Err(added)) == StepOutcome::AlreadyExists,
    ensures
        ({
            let create = project_start(b);
            let add = ensure_project_transition(b, ProjectStep::CreateProject, StepOutcome::AlreadyExists);
            let set = ensure_project_transition(b, ProjectStep::AddRootDevice, StepOutcome::AlreadyExists);
            &&& create matches ActionView::Run(ProjectStep::CreateProject, _)
            &&& add matches ActionView::Run(ProjectStep::AddRootDevice, _)
            &&& set matches ActionView::Run(ProjectStep::SetRootPool, _)
            &&& project_run(
                b,
                create,
                seq![
                    Ran::Run(create->1, Err(created)),
                    Ran::Run(add->1, Err(added)),
                    Ran::Run(set->1, Ok(())),
                ],
                Ok(()),
            )
        }),
{
    let create = project_start(b);
    let add = ensure_project_transition(b, ProjectStep::CreateProject, StepOutcome::AlreadyExists);
    let set = ensure_project_transition(b, ProjectStep::AddRootDevice, StepOutcome::AlreadyExists);
    let recs = seq![Ran::Run(create->1, Err(created)), Ran::Run(add->1, Err(added)), Ran::Run(set->1, Ok(()))];
    let r: Result<(), CommandError> = Ok(());
    assert(project_run(b, ActionView::Done, recs.drop_first().drop_first().drop_first(), r));
    assert(recs.drop_first().drop_first().drop_first() =~= Seq::<Ran>::empty());
    assert(outcome_of(Ok(())) == StepOutcome::Success);
    assert(project_run(b, set, recs.drop_first().drop_first(), r));
    assert(project_run(b, add, recs.drop_first(), r));
    assert(project_run(b, create, recs, r));
}

/// How project setup carried on from `action` ends: it runs at most the
/// steps left; it succeeds only when no command failed outright ("already
/// exists" is no failure); and a failure stops at once, the last command's
/// answer being the result.
pub proof fn law_project_setup_outcome(b: LxcBackend, action: ActionView, recs: Seq<Ran>, r: Result<(), CommandError>)
    requires
        project_run(b, action, recs, r),
    ensures
        action is Done ==> recs.len() == 0 && r is Ok,
        action matches ActionView::Run(step, _) ==> recs.len() <= 3 - step_rank(step),
        r is Ok ==> forall|i: int| 0 <= i < recs.len() ==> (#[trigger] recs[i] matches Ran::Run(_, res) && outcome_of(
            res,
        ) != StepOutcome::Failed),
        r is Err ==> recs.len() >= 1 && (recs.last() matches Ran::Run(_, res) && res == r),
    decreases recs.len(),
{
    match action {
        ActionView::Run(step, argv) => {
            match recs[0] {
                Ran::Run(a, res) => {
                    let next = ensure_project_transition(b, step, outcome_of(res));
                    law_project_setup_moves_forward(b, step, outcome_of(res));
                    match next {
                        ActionView::Fail => {
                            assert(recs.last() == recs[0]);
                        },
                        _ => {
                            let rest = recs.drop_first();
                            law_project_setup_outcome(b, next, rest, r);
                            assert(outcome_of(res) != StepOutcome::Failed);
                            assert forall|i: int| 0 <= i < recs.len() && r is Ok implies (#[trigger] recs[i] matches Ran::Run(
                                _,
                                res2,
                            ) && outcome_of(res2) != StepOutcome::Failed) by {
                                if i > 0 {
                                    assert(recs[i] == rest[i - 1]);
                                }
                            }
                            if r is Err {
                                assert(recs.last() == rest.last());
                            }
                        },
                    }
                },
                Ran::Stdout(..) => {},
            }
        },
        _ => {},
    }
}

/// Project setup as a whole: nothing runs without a project; otherwise it
/// starts by creating the project, succeeds only when no command failed
/// outright, runs at most three commands, and stops at the first failure
/// with its answer.
pub proof fn law_project_setup(b: LxcBackend, recs: Seq<Ran>, r: Result<(), CommandError>)
    requires
        project_run(b, project_start(b), recs, r),
    ensures
        b.project is None ==> recs.len() == 0 && r is Ok,
        b.project is Some ==> recs.len() >= 1 && (recs[0] matches Ran::Run(a, _) && a == project_start(b)->1),
        recs.len() <= 3,
        r is Ok ==> forall|i: int| 0 <= i < recs.len() ==> (#[trigger] recs[i] matches Ran::Run(_, res) && outcome_of(
            res,
        ) != StepOutcome::Failed),
        r is Err ==> recs.len() >= 1 && (recs.last() matches Ran::Run(_, res) && res == r),
{
    law_project_setup_outcome(b, project_start(b), recs, r);
}

} // verus!
