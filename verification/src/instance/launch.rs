//! The configuration of one launch and what it asks of the backend.

use vstd::prelude::*;
use crate::backend::{Device, DeviceView, InstanceConfig, InstanceConfigView};
use crate::distro::DistroKind;
use crate::instance::InstanceKind;
use crate::limits::Limits;
use crate::mount::{AccessMode, Mount};
use crate::naming::{random_uuid, uuid8, uuid8_chars};
use crate::network::params::NetworkParams;
use crate::strings::{decimal, decimal_chars, owned, push_chars, push_str, string_of};

verus! {

/// Configuration for a single instance launch. All fields are set when the
/// launch is prepared and do not change across states.
#[derive(Debug)]
pub struct LaunchConfig {
    pub image: String,
    pub name: String,
    pub bridge_name: String,
    pub kind: InstanceKind,
    pub distro: DistroKind,
    pub mounts: Vec<Mount>,
    pub extra_devices: Vec<Device>,
    pub container_uid: u32,
    pub container_gid: u32,
    pub exec_uid: u32,
    pub exec_gid: u32,
    pub container_home: String,
    pub raw_idmap: Option<String>,
    pub security_nesting: bool,
    pub secure_boot: bool,
    pub ephemeral: bool,
    pub keep: bool,
    pub description: String,
    pub limits: Limits,
    pub network: NetworkParams,
}

/// The first eight characters of a fresh random UUID.
fn random_short_id() -> (r: String)
    ensures
        exists|id: u128| r@ == uuid8(id),
{
    let id = random_uuid();
    let v = uuid8_chars(id);
    string_of(&v)
}

/// What the instance is created with: the image, lifetime and kind of the
/// launch, its limits and id map.
pub open spec fn launch_instance_view(c: LaunchConfig) -> InstanceConfigView {
    InstanceConfigView {
        image: c.image@,
        ephemeral: c.ephemeral,
        vm: c.kind == InstanceKind::Vm,
        secure_boot: c.secure_boot,
        cpu: Some(c.limits.cpu),
        memory: Some(c.limits.memory@),
        disk_size: Some(c.limits.disk@),
        processes: Some(c.limits.processes),
        disk_priority: c.limits.disk_priority,
        memory_enforce: crate::strings::opt_view(c.limits.memory_enforce),
        raw_idmap: crate::strings::opt_view(c.raw_idmap),
        security_nesting: c.security_nesting,
    }
}

impl LaunchConfig {
    /// Assemble a launch. Without a name, the instance is named by the
    /// first eight characters of a random UUID; without a bridge name, the
    /// bridge is `br-` and those of another. Everything else takes its
    /// default: a container, no mounts or extra devices, uid and gid 1000
    /// inside, home `/home/dev`, no id map, no nesting, secure boot on,
    /// neither ephemeral nor kept, no description.
    pub fn prepare(
        image: String,
        name: Option<String>,
        bridge_name: Option<String>,
        distro: DistroKind,
        limits: Limits,
        network: NetworkParams,
    ) -> (r: Self)
        ensures
            r.image == image,
            match name {
                Some(n) => r.name == n,
                None => exists|id: u128| r.name@ == uuid8(id),
            },
            match bridge_name {
                Some(b) => r.bridge_name == b,
                None => exists|id: u128| r.bridge_name@ == "br-"@ + uuid8(id),
            },
            r.distro == distro,
            r.limits == limits,
            r.network == network,
            r.kind == InstanceKind::Container,
            r.mounts@.len() == 0,
            r.extra_devices@.len() == 0,
            r.container_uid == 1000,
            r.container_gid == 1000,
            r.exec_uid == 1000,
            r.exec_gid == 1000,
            r.container_home@ == "/home/dev"@,
            r.raw_idmap is None,
            !r.security_nesting,
            r.secure_boot,
            !r.ephemeral,
            !r.keep,
            r.description@.len() == 0,
    {
        let name = match name {
            Some(n) => n,
            None => random_short_id(),
        };
        let bridge_name = match bridge_name {
            Some(b) => b,
            None => {
                let id = random_uuid();
                let mut v = Vec::new();
                push_str(&mut v, "br-");
                let short = uuid8_chars(id);
                push_chars(&mut v, &short);
                proof {
                    reveal_strlit("br-");
                }
                string_of(&v)
            },
        };
        proof {
            reveal_strlit("/home/dev");
            reveal_strlit("");
        }
        LaunchConfig {
            image,
            name,
            bridge_name,
            kind: InstanceKind::Container,
            distro,
            mounts: Vec::new(),
            extra_devices: Vec::new(),
            container_uid: 1000,
            container_gid: 1000,
            exec_uid: 1000,
            exec_gid: 1000,
            container_home: owned("/home/dev"),
            raw_idmap: None,
            security_nesting: false,
            secure_boot: true,
            ephemeral: false,
            keep: false,
            description: owned(""),
            limits,
            network,
        }
    }

    /// What the backend is asked to create: the image, the kind, every
    /// core limit, the container-only limits, the id map and nesting.
    pub fn instance_config(&self) -> (r: InstanceConfig)
        ensures
            r@ == launch_instance_view(*self),
            r.image@ == self.image@,
            r.ephemeral == self.ephemeral,
            r.vm == (self.kind == InstanceKind::Vm),
            r.secure_boot == self.secure_boot,
            r.cpu == Some(self.limits.cpu),
            r.memory matches Some(m) && m@ == self.limits.memory@,
            r.disk_size matches Some(d) && d@ == self.limits.disk@,
            r.processes == Some(self.limits.processes),
            r.disk_priority == self.limits.disk_priority,
            crate::strings::opt_view(r.memory_enforce) == crate::strings::opt_view(
                self.limits.memory_enforce,
            ),
            crate::strings::opt_view(r.raw_idmap) == crate::strings::opt_view(self.raw_idmap),
            r.security_nesting == self.security_nesting,
    {
        InstanceConfig {
            image: self.image.clone(),
            ephemeral: self.ephemeral,
            vm: self.kind == InstanceKind::Vm,
            secure_boot: self.secure_boot,
            cpu: Some(self.limits.cpu),
            memory: Some(self.limits.memory.clone()),
            disk_size: Some(self.limits.disk.clone()),
            processes: Some(self.limits.processes),
            disk_priority: self.limits.disk_priority,
            memory_enforce: crate::strings::copy_opt_string(&self.limits.memory_enforce),
            raw_idmap: crate::strings::copy_opt_string(&self.raw_idmap),
            security_nesting: self.security_nesting,
        }
    }
}

// ---------------------------------------------------------------------------
// Devices
// ---------------------------------------------------------------------------

/// Mount `i` is known to be a file (false past the end of `is_file`).
pub open spec fn flagged(is_file: Seq<bool>, i: int) -> bool {
    0 <= i < is_file.len() && is_file[i]
}

/// The disk devices for the first `n` mounts, each named `mount<i>` after
/// its place in the list; on a VM, mounts of files are skipped.
pub open spec fn mount_devices(mounts: Seq<Mount>, is_file: Seq<bool>, vm: bool, n: nat) -> Seq<
    (Seq<char>, DeviceView),
>
    decreases n,
{
    if n == 0 {
        Seq::empty()
    } else {
        let i = n - 1;
        let before = mount_devices(mounts, is_file, vm, (n - 1) as nat);
        if vm && flagged(is_file, i) {
            before
        } else {
            before.push(
                (
                    "mount"@ + decimal(i as nat),
                    DeviceView::Disk {
                        source: mounts[i].source@,
                        target: mounts[i].target@,
                        access: mounts[i].access,
                    },
                ),
            )
        }
    }
}

/// The extra devices, each named `extra<i>` after its place in the list.
pub open spec fn extra_devices(extras: Seq<Device>) -> Seq<(Seq<char>, DeviceView)> {
    Seq::new(extras.len(), |i: int| ("extra"@ + decimal(i as nat), extras[i]@))
}

/// The devices of a launch, named, in the order they are added.
pub open spec fn planned_devices(c: LaunchConfig, is_file: Seq<bool>) -> Seq<(Seq<char>, DeviceView)> {
    mount_devices(c.mounts@, is_file, c.kind == InstanceKind::Vm, c.mounts@.len())
        + extra_devices(c.extra_devices@)
}

/// The disk device for mount `i`, named after its place in the list.
pub open spec fn mount_disk(mounts: Seq<Mount>, i: int) -> (Seq<char>, DeviceView) {
    (
        "mount"@ + decimal(i as nat),
        DeviceView::Disk { source: mounts[i].source@, target: mounts[i].target@, access: mounts[i].access },
    )
}

/// Mount `i` gets a disk: all do, except mounts of files on a VM.
pub open spec fn mounted(is_file: Seq<bool>, vm: bool, i: int) -> bool {
    !(vm && flagged(is_file, i))
}

/// Mount `i` of launch `c` gets a disk (see [`mounted`]).
pub open spec fn gets_disk(c: LaunchConfig, is_file: Seq<bool>, i: int) -> bool {
    mounted(is_file, c.kind == InstanceKind::Vm, i)
}

/// `d` is one of the devices `ds`.
pub open spec fn listed(ds: Seq<(Seq<char>, DeviceView)>, d: (Seq<char>, DeviceView)) -> bool {
    exists|k: int| 0 <= k < ds.len() && #[trigger] ds[k] == d
}

/// `d` is the disk of one of the first `n` mounts that get one.
pub open spec fn disk_of_some(mounts: Seq<Mount>, is_file: Seq<bool>, vm: bool, n: nat, d: (Seq<char>, DeviceView)) -> bool {
    exists|i: int| 0 <= i < n && mounted(is_file, vm, i) && d == #[trigger] mount_disk(mounts, i)
}

#[verifier::rlimit(30)]
proof fn lemma_mount_devices(mounts: Seq<Mount>, is_file: Seq<bool>, vm: bool, n: nat)
    requires
        n <= mounts.len(),
    ensures
        forall|i: int| 0 <= i < n && #[trigger] mounted(is_file, vm, i) ==> listed(
            mount_devices(mounts, is_file, vm, n),
            mount_disk(mounts, i),
        ),
        forall|k: int|
            0 <= k < mount_devices(mounts, is_file, vm, n).len() ==> disk_of_some(
                mounts,
                is_file,
                vm,
                n,
                #[trigger] mount_devices(mounts, is_file, vm, n)[k],
            ),
    decreases n,
{
    if n > 0 {
        let m = (n - 1) as nat;
        lemma_mount_devices(mounts, is_file, vm, m);
        let before = mount_devices(mounts, is_file, vm, m);
        let now = mount_devices(mounts, is_file, vm, n);
        let last = mount_disk(mounts, m as int);
        assert(now == (if mounted(is_file, vm, m as int) { before.push(last) } else { before }));
        assert forall|i: int| 0 <= i < n && #[trigger] mounted(is_file, vm, i) implies listed(now, mount_disk(mounts, i)) by {
            if i < m {
                assert(listed(before, mount_disk(mounts, i)));
                let k = choose|k: int| 0 <= k < before.len() && #[trigger] before[k] == mount_disk(mounts, i);
                assert(now[k] == before[k]);
            } else {
                assert(now[before.len() as int] == last);
            }
        }
        assert forall|k: int| 0 <= k < now.len() implies disk_of_some(mounts, is_file, vm, n, #[trigger] now[k]) by {
            if k < before.len() {
                assert(now[k] == before[k]);
                assert(disk_of_some(mounts, is_file, vm, m, before[k]));
                let i = choose|i: int| 0 <= i < m && mounted(is_file, vm, i) && before[k] == #[trigger] mount_disk(mounts, i);
                assert(now[k] == mount_disk(mounts, i));
            } else {
                assert(now[k] == last);
            }
        }
    }
}

/// Device `d` is the disk of a mount that gets one, or an extra device,
/// each named after its place.
pub open spec fn mount_or_extra(c: LaunchConfig, is_file: Seq<bool>, d: (Seq<char>, DeviceView)) -> bool {
    ||| exists|i: int| 0 <= i < c.mounts@.len() && gets_disk(c, is_file, i) && d == #[trigger] mount_disk(c.mounts@, i)
    ||| exists|j: int|
        0 <= j < c.extra_devices@.len() && d == ("extra"@ + decimal(j as nat), (#[trigger] c.extra_devices@[j])@)
}

/// The devices a launch attaches (see [`LaunchConfig::device_plan`]):
/// every mount gets a disk with its source, target and access mode, named
/// `mount<i>` after its place (but for files on a VM); every extra device
/// is attached as given, named `extra<j>`; and nothing else is attached.
pub proof fn law_devices_carry_their_mounts(c: LaunchConfig, is_file: Seq<bool>)
    ensures
        forall|i: int| 0 <= i < c.mounts@.len() && #[trigger] gets_disk(c, is_file, i) ==> exists|k: int|
            0 <= k < planned_devices(c, is_file).len() && #[trigger] planned_devices(c, is_file)[k] == mount_disk(
                c.mounts@,
                i,
            ),
        forall|j: int| 0 <= j < c.extra_devices@.len() ==> planned_devices(c, is_file)[
            mount_devices(c.mounts@, is_file, c.kind == InstanceKind::Vm, c.mounts@.len()).len() + j
        ] == ("extra"@ + decimal(j as nat), (#[trigger] c.extra_devices@[j])@),
        forall|k: int| 0 <= k < planned_devices(c, is_file).len() ==> mount_or_extra(c, is_file, #[trigger] planned_devices(c, is_file)[k]),
{
    let vm = c.kind == InstanceKind::Vm;
    let md = mount_devices(c.mounts@, is_file, vm, c.mounts@.len());
    let ed = extra_devices(c.extra_devices@);
    let p = planned_devices(c, is_file);
    lemma_mount_devices(c.mounts@, is_file, vm, c.mounts@.len());
    assert(p == md + ed);
    assert forall|i: int| 0 <= i < c.mounts@.len() && #[trigger] gets_disk(c, is_file, i) implies exists|k: int|
        0 <= k < p.len() && #[trigger] p[k] == mount_disk(c.mounts@, i) by {
        assert(mounted(is_file, vm, i));
        assert(listed(md, mount_disk(c.mounts@, i)));
        let k = choose|k: int| 0 <= k < md.len() && #[trigger] md[k] == mount_disk(c.mounts@, i);
        assert(p[k] == md[k]);
    }
    assert forall|k: int| 0 <= k < p.len() implies mount_or_extra(c, is_file, #[trigger] p[k]) by {
        if k < md.len() {
            assert(p[k] == md[k]);
            assert(disk_of_some(c.mounts@, is_file, vm, c.mounts@.len(), md[k]));
            let i = choose|i: int| 0 <= i < c.mounts@.len() && mounted(is_file, vm, i) && md[k] == #[trigger] mount_disk(c.mounts@, i);
            assert(gets_disk(c, is_file, i));
            assert(p[k] == mount_disk(c.mounts@, i));
        } else {
            let j = k - md.len();
            assert(p[k] == ed[j]);
            assert(p[k] == ("extra"@ + decimal(j as nat), c.extra_devices@[j]@));
        }
    }
}

/// A list of named devices, taken as text.
pub open spec fn named_devices_view(v: Seq<(String, Device)>) -> Seq<(Seq<char>, DeviceView)> {
    Seq::new(v.len(), |i: int| (v[i].0@, v[i].1@))
}

/// `prefix` followed by `i` in decimal.
fn numbered(prefix: &str, i: usize) -> (r: String)
    ensures
        r@ == prefix@ + decimal(i as nat),
{
    let mut v = Vec::new();
    push_str(&mut v, prefix);
    let d = decimal_chars(i as u64);
    push_chars(&mut v, &d);
    string_of(&v)
}

impl LaunchConfig {
    /// The devices to attach, named, in order: a disk for each mount
    /// (`mount<i>`, numbered by its place in the list; on a VM, mounts of
    /// files are skipped, since LXD/Incus cannot attach them), then each
    /// extra device (`extra<i>`). `is_file[i]` says whether the source of
    /// mount `i` is a regular file.
    pub fn device_plan(&self, is_file: &Vec<bool>) -> (r: Vec<(String, Device)>)
        ensures
            named_devices_view(r@) == planned_devices(*self, is_file@),
    {
        let vm = self.kind == InstanceKind::Vm;
        let mut r: Vec<(String, Device)> = Vec::new();
        let mut i: usize = 0;
        while i < self.mounts.len()
            invariant
                i <= self.mounts@.len(),
                vm == (self.kind == InstanceKind::Vm),
                named_devices_view(r@) == mount_devices(self.mounts@, is_file@, vm, i as nat),
            decreases self.mounts@.len() - i,
        {
            let file = i < is_file.len() && is_file[i];
            if !(vm && file) {
                let m = &self.mounts[i];
                let dev = Device::Disk {
                    source: m.source.clone(),
                    target: m.target.clone(),
                    access: m.access,
                };
                let ghost before = r@;
                r.push((numbered("mount", i), dev));
                assert(named_devices_view(r@) =~= named_devices_view(before).push(
                    (
                        "mount"@ + decimal(i as nat),
                        DeviceView::Disk {
                            source: self.mounts@[i as int].source@,
                            target: self.mounts@[i as int].target@,
                            access: self.mounts@[i as int].access,
                        },
                    ),
                ));
            }
            i = i + 1;
        }
        let ghost base = r@;
        let mut j: usize = 0;
        while j < self.extra_devices.len()
            invariant
                j <= self.extra_devices@.len(),
                r@.len() == base.len() + j,
                r@.take(base.len() as int) == base,
                named_devices_view(r@) == named_devices_view(base) + extra_devices(
                    self.extra_devices@.take(j as int),
                ),
            decreases self.extra_devices@.len() - j,
        {
            let dev = self.extra_devices[j].copy();
            let ghost before = r@;
            r.push((numbered("extra", j), dev));
            proof {
                let t0 = self.extra_devices@.take(j as int);
                let t1 = self.extra_devices@.take(j + 1);
                assert forall|k: int| 0 <= k < j implies #[trigger] extra_devices(t1)[k] == extra_devices(t0)[k] by {
                    assert(t1[k] == t0[k]);
                }
                assert(t1[j as int] == self.extra_devices@[j as int]);
                assert(named_devices_view(r@) =~= named_devices_view(before).push(
                    ("extra"@ + decimal(j as nat), self.extra_devices@[j as int]@),
                ));
                assert(named_devices_view(r@) =~= named_devices_view(base) + extra_devices(t1));
            }
            j = j + 1;
        }
        assert(self.extra_devices@.take(self.extra_devices@.len() as int) =~= self.extra_devices@);
        r
    }
}

} // verus!
