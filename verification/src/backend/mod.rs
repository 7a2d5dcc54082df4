//! What the library asks of an instance and network backend, and the
//! LXD/Incus command lines that carry it out.

pub mod acl;
pub mod bridge;
pub mod lxd;
pub mod mock;

use vstd::prelude::*;
use crate::envmap::EnvMap;
use crate::mount::AccessMode;

verus! {

/// Which side of a proxy device listens.
#[derive(Debug, Clone, Copy, PartialEq, Eq, Structural)]
pub enum ProxyBind {
    Instance,
    Host,
}

impl Default for ProxyBind {
    fn default() -> (r: Self)
        ensures
            r == ProxyBind::Instance,
    {
        ProxyBind::Instance
    }
}

impl ProxyBind {
    /// `instance` or `host`.
    pub fn as_str(self) -> (r: &'static str)
        ensures
            r@ == (match self {
                ProxyBind::Instance => "instance"@,
                ProxyBind::Host => "host"@,
            }),
    {
        match self {
            ProxyBind::Instance => "instance",
            ProxyBind::Host => "host",
        }
    }
}

/// A device to attach to an instance.
#[derive(Debug, Clone)]
pub enum Device {
    /// Bind-mount a host directory or file into the instance.
    Disk { source: String, target: String, access: AccessMode },
    /// Unix socket proxy (e.g. for desktop notifications).
    Proxy {
        connect: String,
        listen: String,
        uid: u32,
        gid: u32,
        host_uid: u32,
        host_gid: u32,
        bind: ProxyBind,
        mode: String,
    },
}

/// A [`Device`] with its text fields taken as text.
pub enum DeviceView {
    Disk { source: Seq<char>, target: Seq<char>, access: AccessMode },
    Proxy {
        connect: Seq<char>,
        listen: Seq<char>,
        uid: u32,
        gid: u32,
        host_uid: u32,
        host_gid: u32,
        bind: ProxyBind,
        mode: Seq<char>,
    },
}

impl View for Device {
    type V = DeviceView;

    open spec fn view(&self) -> DeviceView {
        match *self {
            Device::Disk { source, target, access } => DeviceView::Disk {
                source: source@,
                target: target@,
                access,
            },
            Device::Proxy { connect, listen, uid, gid, host_uid, host_gid, bind, mode } => DeviceView::Proxy {
                connect: connect@,
                listen: listen@,
                uid,
                gid,
                host_uid,
                host_gid,
                bind,
                mode: mode@,
            },
        }
    }
}

impl Device {
    /// Copy of the device.
    pub fn copy(&self) -> (r: Device)
        ensures
            r@ == self@,
    {
        match self {
            Device::Disk { source, target, access } => Device::Disk {
                source: source.clone(),
                target: target.clone(),
                access: *access,
            },
            Device::Proxy { connect, listen, uid, gid, host_uid, host_gid, bind, mode } => Device::Proxy {
                connect: connect.clone(),
                listen: listen.clone(),
                uid: *uid,
                gid: *gid,
                host_uid: *host_uid,
                host_gid: *host_gid,
                bind: *bind,
                mode: mode.clone(),
            },
        }
    }
}

/// Parameters for creating an instance.
#[derive(Debug, Clone)]
pub struct InstanceConfig {
    pub image: String,
    pub ephemeral: bool,
    pub vm: bool,
    pub secure_boot: bool,
    pub cpu: Option<u32>,
    pub memory: Option<String>,
    pub disk_size: Option<String>,
    pub processes: Option<i32>,
    pub disk_priority: Option<u32>,
    pub memory_enforce: Option<String>,
    pub raw_idmap: Option<String>,
    pub security_nesting: bool,
}

/// An [`InstanceConfig`] with its text fields taken as text.
pub struct InstanceConfigView {
    pub image: Seq<char>,
    pub ephemeral: bool,
    pub vm: bool,
    pub secure_boot: bool,
    pub cpu: Option<u32>,
    pub memory: Option<Seq<char>>,
    pub disk_size: Option<Seq<char>>,
    pub processes: Option<i32>,
    pub disk_priority: Option<u32>,
    pub memory_enforce: Option<Seq<char>>,
    pub raw_idmap: Option<Seq<char>>,
    pub security_nesting: bool,
}

impl View for InstanceConfig {
    type V = InstanceConfigView;

    open spec fn view(&self) -> InstanceConfigView {
        InstanceConfigView {
            image: self.image@,
            ephemeral: self.ephemeral,
            vm: self.vm,
            secure_boot: self.secure_boot,
            cpu: self.cpu,
            memory: crate::strings::opt_view(self.memory),
            disk_size: crate::strings::opt_view(self.disk_size),
            processes: self.processes,
            disk_priority: self.disk_priority,
            memory_enforce: crate::strings::opt_view(self.memory_enforce),
            raw_idmap: crate::strings::opt_view(self.raw_idmap),
            security_nesting: self.security_nesting,
        }
    }
}

/// A single TCP allow rule for the bridge egress ACL.
#[derive(Debug)]
pub struct TcpAllow {
    /// Destination IP address, as text.
    pub host: String,
    /// Destination TCP ports.
    pub ports: Vec<u16>,
}

/// Parameters for creating an isolated network bridge.
#[derive(Debug)]
pub struct CreateBridgeParams {
    /// Whether to keep the bridge after the process exits.
    pub keep: bool,
    /// Whether to enable DNS filtering through the proxy.
    pub dns: bool,
    /// The TCP port the HTTP proxy listens on.
    pub proxy_port: u16,
    /// The port the DNS listener uses.
    pub dns_port: u16,
    /// TCP allow rules for the bridge egress ACL.
    pub allow_tcp: Vec<TcpAllow>,
}

/// Manages the lifecycle of an isolated instance.
///
/// Each operation is work outside the library (running the LXD/Incus CLI,
/// or recording the call in a test double); the library promises nothing
/// of what it returns.
pub trait InstanceBackend {
    /// The error type returned by all operations.
    type Error;

    /// Create the instance without starting it.
    fn create(&mut self, name: &str, config: &InstanceConfig) -> Result<(), Self::Error>;

    /// Boot the instance.
    fn start(&mut self, name: &str) -> Result<(), Self::Error>;

    /// Delete the instance (forcefully).
    fn delete(&mut self, name: &str) -> Result<(), Self::Error>;

    /// Attach a device to the instance.
    fn add_device(&mut self, name: &str, dev_name: &str, device: &Device) -> Result<(), Self::Error>;

    /// Override the default NIC to connect to the given bridge.
    fn attach_to_bridge(
        &mut self,
        name: &str,
        bridge: &str,
        ingress: &Option<String>,
        egress: &Option<String>,
    ) -> Result<(), Self::Error>;

    /// Set the instance description.
    fn set_description(&mut self, name: &str, desc: &str) -> Result<(), Self::Error>;

    /// Execute a command inside the instance, returning the exit code.
    fn exec(
        &mut self,
        name: &str,
        cmd: &Vec<String>,
        env: &EnvMap,
        cwd: &str,
        uid: u32,
        gid: u32,
        home: &Option<String>,
        proxy_url: &Option<String>,
    ) -> Result<i32, Self::Error>;

    /// Execute a command inside the instance, capturing stdout.
    fn exec_stdout(&mut self, name: &str, cmd: &Vec<String>) -> Result<String, Self::Error>;

    /// Write file content to a path inside the instance.
    fn write_file(
        &mut self,
        name: &str,
        content: &[u8],
        path: &str,
        mode: &str,
        uid: u32,
        gid: u32,
    ) -> Result<(), Self::Error>;
}

/// A call handed to an instance backend, its arguments as plain values.
pub enum BackendCall {
    Create { name: Seq<char>, config: InstanceConfigView },
    Start { name: Seq<char> },
    Delete { name: Seq<char> },
    AddDevice { name: Seq<char>, dev_name: Seq<char>, device: DeviceView },
    AttachToBridge { name: Seq<char>, bridge: Seq<char>, ingress: Option<Seq<char>>, egress: Option<Seq<char>> },
    SetDescription { name: Seq<char>, desc: Seq<char> },
    Exec {
        name: Seq<char>,
        cmd: Seq<Seq<char>>,
        env: Map<Seq<char>, Seq<char>>,
        cwd: Seq<char>,
        uid: u32,
        gid: u32,
        home: Option<Seq<char>>,
        proxy_url: Option<Seq<char>>,
    },
    ExecStdout { name: Seq<char>, cmd: Seq<Seq<char>> },
    WriteFile { name: Seq<char>, content: Seq<u8>, path: Seq<char>, mode: Seq<char>, uid: u32, gid: u32 },
}

/// What an instance backend answered to a call.
pub enum Answer<E> {
    /// An operation without a value.
    Done(Result<(), E>),
    /// An exit code.
    Code(Result<i32, E>),
    /// Captured output.
    Output(Result<String, E>),
}

/// The error an answer carries, if it is one.
pub open spec fn answer_error<E>(a: Answer<E>) -> Option<E> {
    match a {
        Answer::Done(Err(e)) => Some(e),
        Answer::Code(Err(e)) => Some(e),
        Answer::Output(Err(e)) => Some(e),
        _ => None,
    }
}

/// A backend together with the record of every call it was handed
/// through this wrapper, in order, with its answer.
pub struct Recorded<B: InstanceBackend> {
    pub backend: B,
    log: Ghost<Seq<(BackendCall, Answer<B::Error>)>>,
}

/// What was handed to a backend after `old`, given that `new` starts with
/// `old`.
pub open spec fn calls_since<E>(
    old: Seq<(BackendCall, Answer<E>)>,
    new: Seq<(BackendCall, Answer<E>)>,
) -> Seq<(BackendCall, Answer<E>)> {
    new.skip(old.len() as int)
}

impl<B: InstanceBackend> Recorded<B> {
    /// Start recording `backend`, with nothing recorded yet.
    pub fn new(backend: B) -> (r: Self)
        ensures
            r.inner() == backend,
            r.calls() == Seq::<(BackendCall, Answer<B::Error>)>::empty(),
    {
        Recorded { backend, log: Ghost(Seq::empty()) }
    }

    /// The wrapped backend.
    pub closed spec fn inner(&self) -> B {
        self.backend
    }

    /// The calls handed to the backend so far, oldest first.
    pub closed spec fn calls(&self) -> Seq<(BackendCall, Answer<B::Error>)> {
        self.log@
    }

    /// [`InstanceBackend::create`], recorded with its answer.
    pub fn create(&mut self, name: &str, config: &InstanceConfig) -> (r: Result<(), B::Error>)
        ensures
            final(self).calls() == old(self).calls().push(
                (BackendCall::Create { name: name@, config: config@ }, Answer::Done(r)),
            ),
    {
        let r = self.backend.create(name, config);
        self.log = Ghost(self.log@.push((BackendCall::Create { name: name@, config: config@ }, Answer::Done(r))));
        r
    }

    /// [`InstanceBackend::start`], recorded with its answer.
    pub fn start(&mut self, name: &str) -> (r: Result<(), B::Error>)
        ensures
            final(self).calls() == old(self).calls().push((BackendCall::Start { name: name@ }, Answer::Done(r))),
    {
        let r = self.backend.start(name);
        self.log = Ghost(self.log@.push((BackendCall::Start { name: name@ }, Answer::Done(r))));
        r
    }

    /// [`InstanceBackend::delete`], recorded with its answer.
    pub fn delete(&mut self, name: &str) -> (r: Result<(), B::Error>)
        ensures
            final(self).calls() == old(self).calls().push((BackendCall::Delete { name: name@ }, Answer::Done(r))),
    {
        let r = self.backend.delete(name);
        self.log = Ghost(self.log@.push((BackendCall::Delete { name: name@ }, Answer::Done(r))));
        r
    }

    /// [`InstanceBackend::add_device`], recorded with its answer.
    pub fn add_device(&mut self, name: &str, dev_name: &str, device: &Device) -> (r: Result<(), B::Error>)
        ensures
            final(self).calls() == old(self).calls().push(
                (BackendCall::AddDevice { name: name@, dev_name: dev_name@, device: device@ }, Answer::Done(r)),
            ),
    {
        let r = self.backend.add_device(name, dev_name, device);
        self.log = Ghost(
            self.log@.push(
                (BackendCall::AddDevice { name: name@, dev_name: dev_name@, device: device@ }, Answer::Done(r)),
            ),
        );
        r
    }

    /// [`InstanceBackend::attach_to_bridge`], recorded with its answer.
    pub fn attach_to_bridge(
        &mut self,
        name: &str,
        bridge: &str,
        ingress: &Option<String>,
        egress: &Option<String>,
    ) -> (r: Result<(), B::Error>)
        ensures
            final(self).calls() == old(self).calls().push(
                (
                    BackendCall::AttachToBridge {
                        name: name@,
                        bridge: bridge@,
                        ingress: crate::strings::opt_view(*ingress),
                        egress: crate::strings::opt_view(*egress),
                    },
                    Answer::Done(r),
                ),
            ),
    {
        let r = self.backend.attach_to_bridge(name, bridge, ingress, egress);
        self.log = Ghost(
            self.log@.push(
                (
                    BackendCall::AttachToBridge {
                        name: name@,
                        bridge: bridge@,
                        ingress: crate::strings::opt_view(*ingress),
                        egress: crate::strings::opt_view(*egress),
                    },
                    Answer::Done(r),
                ),
            ),
        );
        r
    }

    /// [`InstanceBackend::set_description`], recorded with its answer.
    pub fn set_description(&mut self, name: &str, desc: &str) -> (r: Result<(), B::Error>)
        ensures
            final(self).calls() == old(self).calls().push(
                (BackendCall::SetDescription { name: name@, desc: desc@ }, Answer::Done(r)),
            ),
    {
        let r = self.backend.set_description(name, desc);
        self.log = Ghost(self.log@.push((BackendCall::SetDescription { name: name@, desc: desc@ }, Answer::Done(r))));
        r
    }

    /// [`InstanceBackend::exec`], recorded with its answer.
    pub fn exec(
        &mut self,
        name: &str,
        cmd: &Vec<String>,
        env: &EnvMap,
        cwd: &str,
        uid: u32,
        gid: u32,
        home: &Option<String>,
        proxy_url: &Option<String>,
    ) -> (r: Result<i32, B::Error>)
        ensures
            final(self).calls() == old(self).calls().push(
                (
                    BackendCall::Exec {
                        name: name@,
                        cmd: crate::strings::strings_view(cmd@),
                        env: env@,
                        cwd: cwd@,
                        uid,
                        gid,
                        home: crate::strings::opt_view(*home),
                        proxy_url: crate::strings::opt_view(*proxy_url),
                    },
                    Answer::Code(r),
                ),
            ),
    {
        let r = self.backend.exec(name, cmd, env, cwd, uid, gid, home, proxy_url);
        self.log = Ghost(
            self.log@.push(
                (
                    BackendCall::Exec {
                        name: name@,
                        cmd: crate::strings::strings_view(cmd@),
                        env: env@,
                        cwd: cwd@,
                        uid,
                        gid,
                        home: crate::strings::opt_view(*home),
                        proxy_url: crate::strings::opt_view(*proxy_url),
                    },
                    Answer::Code(r),
                ),
            ),
        );
        r
    }

    /// [`InstanceBackend::exec_stdout`], recorded with its answer.
    pub fn exec_stdout(&mut self, name: &str, cmd: &Vec<String>) -> (r: Result<String, B::Error>)
        ensures
            final(self).calls() == old(self).calls().push(
                (BackendCall::ExecStdout { name: name@, cmd: crate::strings::strings_view(cmd@) }, Answer::Output(r)),
            ),
    {
        let r = self.backend.exec_stdout(name, cmd);
        self.log = Ghost(
            self.log@.push(
                (BackendCall::ExecStdout { name: name@, cmd: crate::strings::strings_view(cmd@) }, Answer::Output(r)),
            ),
        );
        r
    }

    /// [`InstanceBackend::write_file`], recorded with its answer.
    pub fn write_file(
        &mut self,
        name: &str,
        content: &[u8],
        path: &str,
        mode: &str,
        uid: u32,
        gid: u32,
    ) -> (r: Result<(), B::Error>)
        ensures
            final(self).calls() == old(self).calls().push(
                (
                    BackendCall::WriteFile { name: name@, content: content@, path: path@, mode: mode@, uid, gid },
                    Answer::Done(r),
                ),
            ),
    {
        let r = self.backend.write_file(name, content, path, mode, uid, gid);
        self.log = Ghost(
            self.log@.push(
                (
                    BackendCall::WriteFile { name: name@, content: content@, path: path@, mode: mode@, uid, gid },
                    Answer::Done(r),
                ),
            ),
        );
        r
    }
}

/// A network bridge that is torn down when its holder lets it go.
pub trait BridgeGuard {}

/// Manages per-instance network isolation bridges.
pub trait NetworkBackend {
    /// The error type returned by all operations.
    type Error;

    /// What keeps the bridge alive.
    type Guard;

    /// Create an isolated bridge; return what keeps it alive and the
    /// bridge's gateway address, as text.
    fn create_bridge(
        &mut self,
        name: &str,
        params: &CreateBridgeParams,
    ) -> Result<(Self::Guard, String), Self::Error>;
}

} // verus!
