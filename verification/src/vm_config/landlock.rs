//! The Landlock rules that a VM configuration asks for: every path that one
//! of its components opens, with the access that the component needs, in the
//! order in which the rules are added to the ruleset.
use vstd::prelude::*;

use crate::text::{concat_str, string_from};
use crate::vm_config::console::{
    CommonConsoleConfig, ConsoleConfig, ConsoleOutputMode, DebugConsoleConfig, SerialConfig,
};
use crate::vm_config::devices::{
    DeviceConfig, LandlockConfig, LandlockConfigSpec, TpmConfig, UserDeviceConfig, VdpaConfig,
    VsockConfig,
};
use crate::vm_config::fs::FsConfig;
use crate::vm_config::memory::MemoryZoneConfig;
use crate::vm_config::payload::PayloadConfig;
use crate::vm_config::pmem::PmemConfig;
use crate::vm_config::rng::RngConfig;
use crate::vm_config::vm::{DiskConfig, GenericVhostUserConfig, VmConfig};
use crate::vm_config::str_opt_view;

verus! {

/// What can keep the rules of a configuration from being computed.
#[derive(Clone, Copy, Debug, PartialEq, Eq, Structural)]
pub enum LandlockError {
    /// The link of a VFIO device names no IOMMU group.
    InvalidPath,
}

/// The rule that grants `access` to `path`.
pub open spec fn rule(path: Seq<char>, access: Seq<char>) -> LandlockConfigSpec {
    LandlockConfigSpec { path, access }
}

/// A Landlock ruleset under construction: the rules added so far, in order.
/// Enforcing them is left to the caller.
pub struct Landlock {
    rules: Vec<LandlockConfig>,
}

impl View for Landlock {
    type V = Seq<LandlockConfigSpec>;

    closed spec fn view(&self) -> Seq<LandlockConfigSpec> {
        self.rules@.map_values(|r: LandlockConfig| r@)
    }
}

impl Landlock {
    /// An empty ruleset.
    pub fn new() -> (l: Self)
        ensures
            l@ == Seq::<LandlockConfigSpec>::empty(),
    {
        let l = Landlock { rules: Vec::new() };
        assert(l@ =~= Seq::<LandlockConfigSpec>::empty());
        l
    }

    /// Adds the rule that grants `access` to `path`.
    pub fn add_rule_with_access(&mut self, path: &str, access: &str)
        ensures
            final(self)@ == old(self)@.push(rule(path@, access@)),
    {
        let r = LandlockConfig { path: string_from(path), access: string_from(access) };
        self.rules.push(r);
        assert(self@ =~= old(self)@.push(rule(path@, access@)));
    }

    /// The rules added so far, in order.
    pub fn rules(&self) -> (r: &Vec<LandlockConfig>)
        ensures
            r@.map_values(|x: LandlockConfig| x@) == self@,
    {
        &self.rules
    }
}

/// One rule for `path` if there is a path, none otherwise.
pub open spec fn opt_rule(path: Option<String>, access: Seq<char>) -> Seq<LandlockConfigSpec> {
    match path {
        Some(p) => seq![rule(p@, access)],
        None => Seq::empty(),
    }
}

/// A component that opens paths, and the rules it asks for.
pub trait ApplyLandlock: Sized {
    /// The rules of the component, in the order in which they are added.
    spec fn landlock_rules(&self) -> Seq<LandlockConfigSpec>;

    /// Adds the rules of the component.
    fn apply_landlock(&self, landlock: &mut Landlock)
        ensures
            final(landlock)@ == old(landlock)@ + self.landlock_rules(),
    ;
}

/// The rules of the items of `s`, one item after the other.
pub open spec fn all_rules<T: ApplyLandlock>(s: Seq<T>) -> Seq<LandlockConfigSpec>
    decreases s.len(),
{
    if s.len() == 0 {
        Seq::empty()
    } else {
        all_rules(s.drop_last()) + s.last().landlock_rules()
    }
}

/// The rules of an optional list; none when there is no list.
pub open spec fn opt_all_rules<T: ApplyLandlock>(o: Option<Vec<T>>) -> Seq<LandlockConfigSpec> {
    match o {
        Some(v) => all_rules(v@),
        None => Seq::empty(),
    }
}

/// Adds the rules of every item of `items`, in order.
pub fn apply_all<T: ApplyLandlock>(landlock: &mut Landlock, items: &Vec<T>)
    ensures
        final(landlock)@ == old(landlock)@ + all_rules(items@),
{
    let mut i: usize = 0;
    while i < items.len()
        invariant
            i <= items@.len(),
            landlock@ == old(landlock)@ + all_rules(items@.subrange(0, i as int)),
        decreases items@.len() - i,
    {
        items[i].apply_landlock(landlock);
        assert(items@.subrange(0, i + 1).drop_last() =~= items@.subrange(0, i as int));
        assert(landlock@ =~= old(landlock)@ + all_rules(items@.subrange(0, i + 1)));
        i = i + 1;
    }
    assert(items@.subrange(0, items@.len() as int) =~= items@);
}

/// Adds the rules of every item of an optional list.
pub fn apply_opt_all<T: ApplyLandlock>(landlock: &mut Landlock, items: &Option<Vec<T>>)
    ensures
        final(landlock)@ == old(landlock)@ + opt_all_rules(*items),
{
    match items {
        Some(v) => apply_all(landlock, v),
        None => {
            assert(landlock@ =~= old(landlock)@ + opt_all_rules(*items));
        },
    }
}

impl ApplyLandlock for MemoryZoneConfig {
    /// A zone backed by a file reads and writes it.
    open spec fn landlock_rules(&self) -> Seq<LandlockConfigSpec> {
        opt_rule(self.file, "rw"@)
    }

    fn apply_landlock(&self, landlock: &mut Landlock) {
        if let Some(file) = &self.file {
            landlock.add_rule_with_access(file.as_str(), "rw");
        }
        assert(landlock@ =~= old(landlock)@ + self.landlock_rules());
    }
}

impl ApplyLandlock for DiskConfig {
    /// A disk with a path reads and writes its image.
    open spec fn landlock_rules(&self) -> Seq<LandlockConfigSpec> {
        opt_rule(self.path, "rw"@)
    }

    fn apply_landlock(&self, landlock: &mut Landlock) {
        if let Some(path) = &self.path {
            landlock.add_rule_with_access(path.as_str(), "rw");
        }
        assert(landlock@ =~= old(landlock)@ + self.landlock_rules());
    }
}

impl ApplyLandlock for RngConfig {
    /// The entropy source is only read.
    open spec fn landlock_rules(&self) -> Seq<LandlockConfigSpec> {
        seq![rule(self.src@, "r"@)]
    }

    fn apply_landlock(&self, landlock: &mut Landlock) {
        landlock.add_rule_with_access(self.src.as_str(), "r");
        assert(landlock@ =~= old(landlock)@ + self.landlock_rules());
    }
}

impl ApplyLandlock for FsConfig {
    /// A virtio-fs device talks over its socket.
    open spec fn landlock_rules(&self) -> Seq<LandlockConfigSpec> {
        seq![rule(self.socket@, "rw"@)]
    }

    fn apply_landlock(&self, landlock: &mut Landlock) {
        landlock.add_rule_with_access(self.socket.as_str(), "rw");
        assert(landlock@ =~= old(landlock)@ + self.landlock_rules());
    }
}

impl ApplyLandlock for GenericVhostUserConfig {
    /// A vhost-user device talks over its socket.
    open spec fn landlock_rules(&self) -> Seq<LandlockConfigSpec> {
        seq![rule(self.socket@, "rw"@)]
    }

    fn apply_landlock(&self, landlock: &mut Landlock) {
        landlock.add_rule_with_access(self.socket.as_str(), "rw");
        assert(landlock@ =~= old(landlock)@ + self.landlock_rules());
    }
}

impl ApplyLandlock for PmemConfig {
    /// A pmem device only reads its file when it discards writes.
    open spec fn landlock_rules(&self) -> Seq<LandlockConfigSpec> {
        seq![rule(self.file@, if self.discard_writes { "r"@ } else { "rw"@ })]
    }

    fn apply_landlock(&self, landlock: &mut Landlock) {
        let access = if self.discard_writes { "r" } else { "rw" };
        landlock.add_rule_with_access(self.file.as_str(), access);
        assert(landlock@ =~= old(landlock)@ + self.landlock_rules());
    }
}

/// A console on a pseudo terminal opens the terminal devices.
pub open spec fn pty_rules(mode: ConsoleOutputMode) -> Seq<LandlockConfigSpec> {
    if mode == ConsoleOutputMode::Pty {
        seq![rule("/dev/pts"@, "rw"@), rule("/dev/ptmx"@, "rw"@)]
    } else {
        Seq::empty()
    }
}

fn add_pty_rules(landlock: &mut Landlock, mode: ConsoleOutputMode)
    ensures
        final(landlock)@ == old(landlock)@ + pty_rules(mode),
{
    if let ConsoleOutputMode::Pty = mode {
        landlock.add_rule_with_access("/dev/pts", "rw");
        landlock.add_rule_with_access("/dev/ptmx", "rw");
    }
    assert(landlock@ =~= old(landlock)@ + pty_rules(mode));
}

impl ApplyLandlock for CommonConsoleConfig {
    /// A console: its terminal devices, its file, then its socket.
    open spec fn landlock_rules(&self) -> Seq<LandlockConfigSpec> {
        pty_rules(self.mode) + opt_rule(self.file, "rw"@) + opt_rule(self.socket, "rw"@)
    }

    fn apply_landlock(&self, landlock: &mut Landlock) {
        add_pty_rules(landlock, self.mode);
        let ghost mid = landlock@;
        if let Some(file) = &self.file {
            landlock.add_rule_with_access(file.as_str(), "rw");
        }
        assert(landlock@ =~= mid + opt_rule(self.file, "rw"@));
        let ghost mid2 = landlock@;
        if let Some(socket) = &self.socket {
            landlock.add_rule_with_access(socket.as_str(), "rw");
        }
        assert(landlock@ =~= mid2 + opt_rule(self.socket, "rw"@));
        assert(landlock@ =~= old(landlock)@ + self.landlock_rules());
    }
}

impl ApplyLandlock for SerialConfig {
    /// The rules of its console.
    open spec fn landlock_rules(&self) -> Seq<LandlockConfigSpec> {
        self.common.landlock_rules()
    }

    fn apply_landlock(&self, landlock: &mut Landlock) {
        self.common.apply_landlock(landlock);
    }
}

impl ApplyLandlock for ConsoleConfig {
    /// The rules of its console.
    open spec fn landlock_rules(&self) -> Seq<LandlockConfigSpec> {
        self.common.landlock_rules()
    }

    fn apply_landlock(&self, landlock: &mut Landlock) {
        self.common.apply_landlock(landlock);
    }
}

impl ApplyLandlock for DebugConsoleConfig {
    /// The debug console: its terminal devices, then its file.
    open spec fn landlock_rules(&self) -> Seq<LandlockConfigSpec> {
        pty_rules(self.mode) + opt_rule(self.file, "rw"@)
    }

    fn apply_landlock(&self, landlock: &mut Landlock) {
        add_pty_rules(landlock, self.mode);
        let ghost mid = landlock@;
        if let Some(file) = &self.file {
            landlock.add_rule_with_access(file.as_str(), "rw");
        }
        assert(landlock@ =~= mid + opt_rule(self.file, "rw"@));
        assert(landlock@ =~= old(landlock)@ + self.landlock_rules());
    }
}

impl ApplyLandlock for UserDeviceConfig {
    /// A vhost-user device talks over its socket.
    open spec fn landlock_rules(&self) -> Seq<LandlockConfigSpec> {
        seq![rule(self.socket@, "rw"@)]
    }

    fn apply_landlock(&self, landlock: &mut Landlock) {
        landlock.add_rule_with_access(self.socket.as_str(), "rw");
        assert(landlock@ =~= old(landlock)@ + self.landlock_rules());
    }
}

impl ApplyLandlock for VdpaConfig {
    /// A vDPA device opens its device node.
    open spec fn landlock_rules(&self) -> Seq<LandlockConfigSpec> {
        seq![rule(self.path@, "rw"@)]
    }

    fn apply_landlock(&self, landlock: &mut Landlock) {
        landlock.add_rule_with_access(self.path.as_str(), "rw");
        assert(landlock@ =~= old(landlock)@ + self.landlock_rules());
    }
}

impl ApplyLandlock for PayloadConfig {
    /// The payload is only read: firmware, kernel, then initramfs.
    open spec fn landlock_rules(&self) -> Seq<LandlockConfigSpec> {
        opt_rule(self.firmware, "r"@) + opt_rule(self.kernel, "r"@) + opt_rule(self.initramfs, "r"@)
    }

    fn apply_landlock(&self, landlock: &mut Landlock) {
        if let Some(firmware) = &self.firmware {
            landlock.add_rule_with_access(firmware.as_str(), "r");
        }
        let ghost a = landlock@;
        if let Some(kernel) = &self.kernel {
            landlock.add_rule_with_access(kernel.as_str(), "r");
        }
        let ghost b = landlock@;
        if let Some(initramfs) = &self.initramfs {
            landlock.add_rule_with_access(initramfs.as_str(), "r");
        }
        assert(a =~= old(landlock)@ + opt_rule(self.firmware, "r"@));
        assert(b =~= a + opt_rule(self.kernel, "r"@));
        assert(landlock@ =~= b + opt_rule(self.initramfs, "r"@));
        assert(landlock@ =~= old(landlock)@ + self.landlock_rules());
    }
}

impl ApplyLandlock for TpmConfig {
    /// The TPM is reached over its socket.
    open spec fn landlock_rules(&self) -> Seq<LandlockConfigSpec> {
        seq![rule(self.socket@, "rw"@)]
    }

    fn apply_landlock(&self, landlock: &mut Landlock) {
        landlock.add_rule_with_access(self.socket.as_str(), "rw");
        assert(landlock@ =~= old(landlock)@ + self.landlock_rules());
    }
}

impl ApplyLandlock for LandlockConfig {
    /// A rule given by the user stands as it is.
    open spec fn landlock_rules(&self) -> Seq<LandlockConfigSpec> {
        seq![rule(self.path@, self.access@)]
    }

    fn apply_landlock(&self, landlock: &mut Landlock) {
        landlock.add_rule_with_access(self.path.as_str(), self.access.as_str());
        assert(landlock@ =~= old(landlock)@ + self.landlock_rules());
    }
}

/// The group device of the VFIO group `group`.
pub open spec fn vfio_group_path(group: Seq<char>) -> Seq<char> {
    "/dev/vfio/"@ + group
}

/// A VFIO device given by a path opens the device of its IOMMU group
/// `group`; one opened outside needs no rule.
pub open spec fn device_rules(d: DeviceConfig, group: Seq<char>) -> Seq<LandlockConfigSpec> {
    match d.path {
        Some(_) => seq![rule(vfio_group_path(group), "rw"@)],
        None => Seq::empty(),
    }
}

impl DeviceConfig {
    /// Adds the rule of the device, which belongs to the IOMMU group
    /// `iommu_group`: the group's device under `/dev/vfio`.
    pub fn apply_landlock(&self, landlock: &mut Landlock, iommu_group: &str)
        ensures
            final(landlock)@ == old(landlock)@ + device_rules(*self, iommu_group@),
    {
        if self.path.is_some() {
            let path = concat_str("/dev/vfio/", iommu_group);
            landlock.add_rule_with_access(path.as_str(), "rw");
        }
        assert(landlock@ =~= old(landlock)@ + device_rules(*self, iommu_group@));
    }
}

/// The vsock device creates its socket in the directory `parent`, when the
/// socket path has one, then uses the socket.
pub open spec fn vsock_rules(v: VsockConfig, parent: Option<Seq<char>>) -> Seq<LandlockConfigSpec> {
    match parent {
        Some(p) => seq![rule(p, "w"@), rule(v.socket@, "rw"@)],
        None => seq![rule(v.socket@, "rw"@)],
    }
}

pub open spec fn str_opt(o: Option<&str>) -> Option<Seq<char>> {
    match o {
        Some(p) => Some(p@),
        None => None,
    }
}

impl VsockConfig {
    /// Adds the rules of the socket, whose directory is `parent`.
    pub fn apply_landlock(&self, landlock: &mut Landlock, parent: Option<&str>)
        ensures
            final(landlock)@ == old(landlock)@ + vsock_rules(*self, str_opt(parent)),
    {
        if let Some(p) = parent {
            landlock.add_rule_with_access(p, "w");
        }
        landlock.add_rule_with_access(self.socket.as_str(), "rw");
        assert(landlock@ =~= old(landlock)@ + vsock_rules(*self, str_opt(parent)));
    }
}

/// The rules of the VFIO devices `ds`, the i-th in IOMMU group `groups[i]`.
pub open spec fn devices_rules(ds: Seq<DeviceConfig>, groups: Seq<Seq<char>>) -> Seq<LandlockConfigSpec>
    decreases ds.len(),
{
    if ds.len() == 0 {
        Seq::empty()
    } else {
        devices_rules(ds.drop_last(), groups) + device_rules(ds.last(), groups[ds.len() - 1])
    }
}

/// The rules of the whole configuration, in the order in which they are
/// added: memory zones, disks, entropy source, virtio-fs, generic vhost-user,
/// pmem, console, serial port, debug console, VFIO devices (the i-th in IOMMU
/// group `groups[i]`), vhost-user devices, vDPA, vsock (its socket in the
/// directory `vsock_parent`), payload, TPM, network, and the user's own rules.
pub open spec fn vm_landlock_rules(c: VmConfig, groups: Seq<Seq<char>>, vsock_parent: Option<Seq<char>>) -> Seq<LandlockConfigSpec> {
    opt_all_rules(c.memory.zones)
    + opt_all_rules(c.disks)
    + c.rng.landlock_rules()
    + opt_all_rules(c.fs)
    + opt_all_rules(c.generic_vhost_user)
    + opt_all_rules(c.pmem)
    + c.console.landlock_rules()
    + c.serial.landlock_rules()
    + c.debug_console.landlock_rules()
    + match c.devices {
        Some(ds) => seq![rule("/dev/vfio/vfio"@, "rw"@)] + devices_rules(ds@, groups),
        None => Seq::empty(),
    }
    + opt_all_rules(c.user_devices)
    + opt_all_rules(c.vdpa)
    + match c.vsock {
        Some(v) => vsock_rules(v, vsock_parent),
        None => Seq::empty(),
    }
    + match c.payload {
        Some(p) => p.landlock_rules(),
        None => Seq::empty(),
    }
    + match c.tpm {
        Some(t) => t.landlock_rules(),
        None => Seq::empty(),
    }
    + if c.net is Some {
        seq![rule("/dev/net/tun"@, "rw"@)]
    } else {
        Seq::empty()
    }
    + opt_all_rules(c.landlock_rules)
}

pub open spec fn strings_view(v: Seq<String>) -> Seq<Seq<char>> {
    v.map_values(|s: String| s@)
}

fn apply_devices(landlock: &mut Landlock, devices: &Option<Vec<DeviceConfig>>, groups: &Vec<String>)
    requires
        devices is Some ==> groups@.len() == devices->0@.len(),
    ensures
        final(landlock)@ == old(landlock)@ + match *devices {
            Some(ds) => seq![rule("/dev/vfio/vfio"@, "rw"@)] + devices_rules(ds@, strings_view(groups@)),
            None => Seq::empty(),
        },
{
    match devices {
        Some(ds) => {
            landlock.add_rule_with_access("/dev/vfio/vfio", "rw");
            let ghost start = landlock@;
            let mut i: usize = 0;
            while i < ds.len()
                invariant
                    i <= ds@.len(),
                    groups@.len() == ds@.len(),
                    landlock@ == start + devices_rules(ds@.subrange(0, i as int), strings_view(groups@)),
                decreases ds@.len() - i,
            {
                ds[i].apply_landlock(landlock, groups[i].as_str());
                assert(ds@.subrange(0, i + 1).drop_last() =~= ds@.subrange(0, i as int));
                assert(landlock@ =~= start + devices_rules(ds@.subrange(0, i + 1), strings_view(groups@)));
                i = i + 1;
            }
            assert(ds@.subrange(0, ds@.len() as int) =~= ds@);
            assert(landlock@ =~= old(landlock)@ + (seq![rule("/dev/vfio/vfio"@, "rw"@)] + devices_rules(ds@, strings_view(groups@))));
        },
        None => {
            assert(landlock@ =~= old(landlock)@ + Seq::<LandlockConfigSpec>::empty());
        },
    }
}

/// `std::path::Path::file_name`: the last component of `path`, if it has one.
pub uninterp spec fn path_file_name(path: Seq<char>) -> Option<Seq<char>>;

/// `std::path::Path::parent`: `path` without its last component, if it has one.
pub uninterp spec fn path_parent(path: Seq<char>) -> Option<Seq<char>>;

/// `std::path::Path::file_name`, read back as a string: the result is what
/// `path_file_name` names. The name of a component of a string is a string,
/// so nothing is lost in the conversion.
#[verifier::external_body]
fn file_name_of(path: &str) -> (r: Option<String>)
    ensures
        str_opt_view(r) == path_file_name(path@),
{
    match std::path::Path::new(path).file_name() {
        Some(n) => Some(n.to_string_lossy().into_owned()),
        None => None,
    }
}

/// `std::path::Path::parent`, read back as a string: the result is what
/// `path_parent` names.
#[verifier::external_body]
fn parent_of(path: &str) -> (r: Option<String>)
    ensures
        str_opt_view(r) == path_parent(path@),
{
    match std::path::Path::new(path).parent() {
        Some(p) => Some(p.to_string_lossy().into_owned()),
        None => None,
    }
}

/// The IOMMU group of each device: the last component of its link target
/// (`links[i]`) when the device is given by a path; the empty string, which
/// no rule uses, when it is not.
pub open spec fn device_groups(ds: Seq<DeviceConfig>, links: Seq<String>) -> Seq<Seq<char>> {
    Seq::new(ds.len(), |i: int| match ds[i].path {
        Some(_) => match path_file_name(links[i]@) {
            Some(g) => g,
            None => Seq::empty(),
        },
        None => Seq::empty(),
    })
}

/// A device given by a path whose link target names no IOMMU group.
pub open spec fn has_invalid_link(ds: Seq<DeviceConfig>, links: Seq<String>) -> bool {
    exists|i: int| 0 <= i < ds.len() && (#[trigger] ds[i]).path is Some && path_file_name(links[i]@) is None
}

impl VmConfig {
    /// The ruleset of the configuration when the i-th VFIO device is in the
    /// IOMMU group `iommu_groups[i]` and the vsock socket lies in the
    /// directory `vsock_parent`.
    pub fn build_landlock(&self, iommu_groups: &Vec<String>, vsock_parent: Option<&str>) -> (l: Landlock)
        requires
            self.devices is Some ==> iommu_groups@.len() == self.devices->0@.len(),
        ensures
            l@ == vm_landlock_rules(*self, strings_view(iommu_groups@), str_opt(vsock_parent)),
    {
        let mut landlock = Landlock::new();
        apply_opt_all(&mut landlock, &self.memory.zones);
        assert(landlock@ =~= opt_all_rules(self.memory.zones));
        apply_opt_all(&mut landlock, &self.disks);
        self.rng.apply_landlock(&mut landlock);
        apply_opt_all(&mut landlock, &self.fs);
        apply_opt_all(&mut landlock, &self.generic_vhost_user);
        apply_opt_all(&mut landlock, &self.pmem);
        self.console.apply_landlock(&mut landlock);
        self.serial.apply_landlock(&mut landlock);
        self.debug_console.apply_landlock(&mut landlock);
        apply_devices(&mut landlock, &self.devices, iommu_groups);
        apply_opt_all(&mut landlock, &self.user_devices);
        apply_opt_all(&mut landlock, &self.vdpa);
        let ghost before_vsock = landlock@;
        if let Some(vsock) = &self.vsock {
            vsock.apply_landlock(&mut landlock, vsock_parent);
        }
        assert(landlock@ =~= before_vsock + match self.vsock {
            Some(v) => vsock_rules(v, str_opt(vsock_parent)),
            None => Seq::empty(),
        });
        let ghost before_payload = landlock@;
        if let Some(payload) = &self.payload {
            payload.apply_landlock(&mut landlock);
        }
        assert(landlock@ =~= before_payload + match self.payload {
            Some(p) => p.landlock_rules(),
            None => Seq::empty(),
        });
        let ghost before_tpm = landlock@;
        if let Some(tpm) = &self.tpm {
            tpm.apply_landlock(&mut landlock);
        }
        assert(landlock@ =~= before_tpm + match self.tpm {
            Some(t) => t.landlock_rules(),
            None => Seq::empty(),
        });
        let ghost before_net = landlock@;
        if self.net.is_some() {
            landlock.add_rule_with_access("/dev/net/tun", "rw");
        }
        assert(landlock@ =~= before_net + if self.net is Some {
            seq![rule("/dev/net/tun"@, "rw"@)]
        } else {
            Seq::empty()
        });
        apply_opt_all(&mut landlock, &self.landlock_rules);
        landlock
    }

    /// The ruleset of the configuration, where `device_links[i]` is the
    /// target of the link that the path of the i-th VFIO device names (read
    /// only for the devices given by a path). Fails when such a target names
    /// no IOMMU group.
    pub fn apply_landlock(&self, device_links: &Vec<String>) -> (r: Result<Landlock, LandlockError>)
        requires
            self.devices is Some ==> device_links@.len() == self.devices->0@.len(),
        ensures
            r is Err <==> (self.devices is Some && has_invalid_link(self.devices->0@, device_links@)),
            r is Err ==> r == Err::<Landlock, LandlockError>(LandlockError::InvalidPath),
            r matches Ok(l) ==> l@ == vm_landlock_rules(
                *self,
                match self.devices {
                    Some(ds) => device_groups(ds@, device_links@),
                    None => Seq::empty(),
                },
                match self.vsock {
                    Some(v) => path_parent(v.socket@),
                    None => None,
                },
            ),
    {
        let mut groups: Vec<String> = Vec::new();
        if let Some(ds) = &self.devices {
            let mut i: usize = 0;
            while i < ds.len()
                invariant
                    i <= ds@.len(),
                    self.devices is Some && self.devices->0@ == ds@,
                    device_links@.len() == ds@.len(),
                    groups@.len() == i,
                    !has_invalid_link(ds@.subrange(0, i as int), device_links@),
                    forall|j: int| 0 <= j < i ==> (#[trigger] groups@[j])@ == device_groups(ds@, device_links@)[j],
                decreases ds@.len() - i,
            {
                if ds[i].path.is_some() {
                    match file_name_of(device_links[i].as_str()) {
                        Some(g) => groups.push(g),
                        None => {
                            assert(path_file_name(device_links@[i as int]@) is None);
                            assert(ds@[i as int].path is Some);
                            assert(has_invalid_link(ds@, device_links@));
                            return Err(LandlockError::InvalidPath);
                        },
                    }
                } else {
                    groups.push(String::new());
                }
                assert(!has_invalid_link(ds@.subrange(0, i + 1), device_links@)) by {
                    assert forall|j: int| 0 <= j < i + 1 && (#[trigger] ds@.subrange(0, i + 1)[j]).path is Some
                        implies path_file_name(device_links@[j]@) is Some by {
                        if j < i {
                            assert(ds@.subrange(0, i as int)[j] == ds@.subrange(0, i + 1)[j]);
                        }
                    }
                }
                i = i + 1;
            }
            assert(ds@.subrange(0, ds@.len() as int) =~= ds@);
            assert(strings_view(groups@) =~= device_groups(ds@, device_links@));
        }
        let parent = match &self.vsock {
            Some(v) => parent_of(v.socket.as_str()),
            None => None,
        };
        let l = match &parent {
            Some(p) => self.build_landlock(&groups, Some(p.as_str())),
            None => self.build_landlock(&groups, None),
        };
        Ok(l)
    }
}

// ---------------------------------------------------------------------------
// What the ruleset of a configuration grants
// ---------------------------------------------------------------------------

proof fn lemma_add_contains<A>(a: Seq<A>, b: Seq<A>, x: A)
    ensures
        a.contains(x) ==> (a + b).contains(x),
        b.contains(x) ==> (a + b).contains(x),
{
    if a.contains(x) {
        let i = choose|i: int| 0 <= i < a.len() && a[i] == x;
        assert((a + b)[i] == x);
    }
    if b.contains(x) {
        let i = choose|i: int| 0 <= i < b.len() && b[i] == x;
        assert((a + b)[a.len() + i] == x);
    }
}

proof fn lemma_single_contains<A>(x: A)
    ensures
        seq![x].contains(x),
{
    assert(seq![x][0] == x);
}

proof fn lemma_all_rules_contains<T: ApplyLandlock>(s: Seq<T>, i: int, x: LandlockConfigSpec)
    requires
        0 <= i < s.len(),
        s[i].landlock_rules().contains(x),
    ensures
        all_rules(s).contains(x),
    decreases s.len(),
{
    let d = s.drop_last();
    if i == s.len() - 1 {
        lemma_add_contains(all_rules(d), s.last().landlock_rules(), x);
    } else {
        assert(d[i] == s[i]);
        lemma_all_rules_contains(d, i, x);
        lemma_add_contains(all_rules(d), s.last().landlock_rules(), x);
    }
}

proof fn lemma_devices_rules_contains(ds: Seq<DeviceConfig>, groups: Seq<Seq<char>>, i: int)
    requires
        0 <= i < ds.len(),
        ds[i].path is Some,
    ensures
        devices_rules(ds, groups).contains(rule(vfio_group_path(groups[i]), "rw"@)),
    decreases ds.len(),
{
    let d = ds.drop_last();
    let x = rule(vfio_group_path(groups[i]), "rw"@);
    if i == ds.len() - 1 {
        lemma_single_contains(x);
        lemma_add_contains(devices_rules(d, groups), device_rules(ds.last(), groups[ds.len() - 1]), x);
    } else {
        assert(d[i] == ds[i]);
        lemma_devices_rules_contains(d, groups, i);
        lemma_add_contains(devices_rules(d, groups), device_rules(ds.last(), groups[ds.len() - 1]), x);
    }
}

proof fn lemma_in_vm_rules(c: VmConfig, groups: Seq<Seq<char>>, vsock_parent: Option<Seq<char>>, x: LandlockConfigSpec)
    requires
        ({
            ||| opt_all_rules(c.memory.zones).contains(x)
            ||| opt_all_rules(c.disks).contains(x)
            ||| c.rng.landlock_rules().contains(x)
            ||| opt_all_rules(c.fs).contains(x)
            ||| opt_all_rules(c.generic_vhost_user).contains(x)
            ||| opt_all_rules(c.pmem).contains(x)
            ||| c.console.landlock_rules().contains(x)
            ||| c.serial.landlock_rules().contains(x)
            ||| c.debug_console.landlock_rules().contains(x)
            ||| (match c.devices {
                Some(ds) => seq![rule("/dev/vfio/vfio"@, "rw"@)] + devices_rules(ds@, groups),
                None => Seq::empty(),
            }).contains(x)
            ||| opt_all_rules(c.user_devices).contains(x)
            ||| opt_all_rules(c.vdpa).contains(x)
            ||| (match c.vsock {
                Some(v) => vsock_rules(v, vsock_parent),
                None => Seq::empty(),
            }).contains(x)
            ||| (match c.payload {
                Some(p) => p.landlock_rules(),
                None => Seq::empty(),
            }).contains(x)
            ||| (match c.tpm {
                Some(t) => t.landlock_rules(),
                None => Seq::empty(),
            }).contains(x)
            ||| (if c.net is Some {
                seq![rule("/dev/net/tun"@, "rw"@)]
            } else {
                Seq::empty()
            }).contains(x)
            ||| opt_all_rules(c.landlock_rules).contains(x)
        }),
    ensures
        vm_landlock_rules(c, groups, vsock_parent).contains(x),
{
    let s1 = opt_all_rules(c.memory.zones);
    let p2 = opt_all_rules(c.disks);
    let s2 = s1 + p2;
    lemma_add_contains(s1, p2, x);
    let p3 = c.rng.landlock_rules();
    let s3 = s2 + p3;
    lemma_add_contains(s2, p3, x);
    let p4 = opt_all_rules(c.fs);
    let s4 = s3 + p4;
    lemma_add_contains(s3, p4, x);
    let p5 = opt_all_rules(c.generic_vhost_user);
    let s5 = s4 + p5;
    lemma_add_contains(s4, p5, x);
    let p6 = opt_all_rules(c.pmem);
    let s6 = s5 + p6;
    lemma_add_contains(s5, p6, x);
    let p7 = c.console.landlock_rules();
    let s7 = s6 + p7;
    lemma_add_contains(s6, p7, x);
    let p8 = c.serial.landlock_rules();
    let s8 = s7 + p8;
    lemma_add_contains(s7, p8, x);
    let p9 = c.debug_console.landlock_rules();
    let s9 = s8 + p9;
    lemma_add_contains(s8, p9, x);
    let p10 = match c.devices {
        Some(ds) => seq![rule("/dev/vfio/vfio"@, "rw"@)] + devices_rules(ds@, groups),
        None => Seq::empty(),
    };
    let s10 = s9 + p10;
    lemma_add_contains(s9, p10, x);
    let p11 = opt_all_rules(c.user_devices);
    let s11 = s10 + p11;
    lemma_add_contains(s10, p11, x);
    let p12 = opt_all_rules(c.vdpa);
    let s12 = s11 + p12;
    lemma_add_contains(s11, p12, x);
    let p13 = match c.vsock {
        Some(v) => vsock_rules(v, vsock_parent),
        None => Seq::empty(),
    };
    let s13 = s12 + p13;
    lemma_add_contains(s12, p13, x);
    let p14 = match c.payload {
        Some(p) => p.landlock_rules(),
        None => Seq::empty(),
    };
    let s14 = s13 + p14;
    lemma_add_contains(s13, p14, x);
    let p15 = match c.tpm {
        Some(t) => t.landlock_rules(),
        None => Seq::empty(),
    };
    let s15 = s14 + p15;
    lemma_add_contains(s14, p15, x);
    let p16 = if c.net is Some {
        seq![rule("/dev/net/tun"@, "rw"@)]
    } else {
        Seq::empty()
    };
    let s16 = s15 + p16;
    lemma_add_contains(s15, p16, x);
    let p17 = opt_all_rules(c.landlock_rules);
    lemma_add_contains(s16, p17, x);
    assert(vm_landlock_rules(c, groups, vsock_parent) == s16 + p17);
}

/// The ruleset of configuration `c` grants `access` to `path`.
pub open spec fn grants(
    c: VmConfig,
    groups: Seq<Seq<char>>,
    vsock_parent: Option<Seq<char>>,
    path: Seq<char>,
    access: Seq<char>,
) -> bool {
    vm_landlock_rules(c, groups, vsock_parent).contains(rule(path, access))
}

/// The storage of a configuration: every memory zone's backing file and
/// every disk image is read and written; every pmem file is read and
/// written, or only read when the device discards writes.
pub proof fn lemma_landlock_storage(c: VmConfig, groups: Seq<Seq<char>>, vsock_parent: Option<Seq<char>>)
    ensures
        c.memory.zones matches Some(zs) ==> forall|i: int|
            0 <= i < zs@.len() && (#[trigger] zs@[i]).file is Some ==> grants(
                c,
                groups,
                vsock_parent,
                zs@[i].file->Some_0@,
                "rw"@,
            ),
        c.disks matches Some(ds) ==> forall|i: int|
            0 <= i < ds@.len() && (#[trigger] ds@[i]).path is Some ==> grants(
                c,
                groups,
                vsock_parent,
                ds@[i].path->Some_0@,
                "rw"@,
            ),
        c.pmem matches Some(ps) ==> forall|i: int|
            0 <= i < ps@.len() ==> grants(
                c,
                groups,
                vsock_parent,
                (#[trigger] ps@[i]).file@,
                if ps@[i].discard_writes {
                    "r"@
                } else {
                    "rw"@
                },
            ),
{
    if let Some(zs) = c.memory.zones {
        assert forall|i: int| 0 <= i < zs@.len() && (#[trigger] zs@[i]).file is Some implies grants(
            c,
            groups,
            vsock_parent,
            zs@[i].file->Some_0@,
            "rw"@,
        ) by {
            let x = rule(zs@[i].file->Some_0@, "rw"@);
            lemma_single_contains(x);
            lemma_all_rules_contains(zs@, i, x);
            lemma_in_vm_rules(c, groups, vsock_parent, x);
        }
    }
    if let Some(ds) = c.disks {
        assert forall|i: int| 0 <= i < ds@.len() && (#[trigger] ds@[i]).path is Some implies grants(
            c,
            groups,
            vsock_parent,
            ds@[i].path->Some_0@,
            "rw"@,
        ) by {
            let x = rule(ds@[i].path->Some_0@, "rw"@);
            lemma_single_contains(x);
            lemma_all_rules_contains(ds@, i, x);
            lemma_in_vm_rules(c, groups, vsock_parent, x);
        }
    }
    if let Some(ps) = c.pmem {
        assert forall|i: int| 0 <= i < ps@.len() implies grants(
            c,
            groups,
            vsock_parent,
            (#[trigger] ps@[i]).file@,
            if ps@[i].discard_writes {
                "r"@
            } else {
                "rw"@
            },
        ) by {
            let x = rule(ps@[i].file@, if ps@[i].discard_writes { "r"@ } else { "rw"@ });
            lemma_single_contains(x);
            lemma_all_rules_contains(ps@, i, x);
            lemma_in_vm_rules(c, groups, vsock_parent, x);
        }
    }
}

/// The sockets of a configuration are read and written: those of virtio-fs,
/// generic vhost-user and vhost-user devices, the vsock socket (whose
/// directory is written), the TPM socket; so are the vDPA device nodes.
pub proof fn lemma_landlock_sockets(c: VmConfig, groups: Seq<Seq<char>>, vsock_parent: Option<Seq<char>>)
    ensures
        c.fs matches Some(v) ==> forall|i: int| 0 <= i < v@.len() ==> grants(c, groups, vsock_parent, (#[trigger] v@[i]).socket@, "rw"@),
        c.generic_vhost_user matches Some(v) ==> forall|i: int|
            0 <= i < v@.len() ==> grants(c, groups, vsock_parent, (#[trigger] v@[i]).socket@, "rw"@),
        c.user_devices matches Some(v) ==> forall|i: int|
            0 <= i < v@.len() ==> grants(c, groups, vsock_parent, (#[trigger] v@[i]).socket@, "rw"@),
        c.vdpa matches Some(v) ==> forall|i: int| 0 <= i < v@.len() ==> grants(c, groups, vsock_parent, (#[trigger] v@[i]).path@, "rw"@),
        c.vsock matches Some(v) ==> grants(c, groups, vsock_parent, v.socket@, "rw"@),
        c.vsock is Some && vsock_parent is Some ==> grants(c, groups, vsock_parent, vsock_parent->Some_0, "w"@),
        c.tpm matches Some(t) ==> grants(c, groups, vsock_parent, t.socket@, "rw"@),
{
    if let Some(v) = c.fs {
        assert forall|i: int| 0 <= i < v@.len() implies grants(c, groups, vsock_parent, (#[trigger] v@[i]).socket@, "rw"@) by {
            let x = rule(v@[i].socket@, "rw"@);
            lemma_single_contains(x);
            lemma_all_rules_contains(v@, i, x);
            lemma_in_vm_rules(c, groups, vsock_parent, x);
        }
    }
    if let Some(v) = c.generic_vhost_user {
        assert forall|i: int| 0 <= i < v@.len() implies grants(c, groups, vsock_parent, (#[trigger] v@[i]).socket@, "rw"@) by {
            let x = rule(v@[i].socket@, "rw"@);
            lemma_single_contains(x);
            lemma_all_rules_contains(v@, i, x);
            lemma_in_vm_rules(c, groups, vsock_parent, x);
        }
    }
    if let Some(v) = c.user_devices {
        assert forall|i: int| 0 <= i < v@.len() implies grants(c, groups, vsock_parent, (#[trigger] v@[i]).socket@, "rw"@) by {
            let x = rule(v@[i].socket@, "rw"@);
            lemma_single_contains(x);
            lemma_all_rules_contains(v@, i, x);
            lemma_in_vm_rules(c, groups, vsock_parent, x);
        }
    }
    if let Some(v) = c.vdpa {
        assert forall|i: int| 0 <= i < v@.len() implies grants(c, groups, vsock_parent, (#[trigger] v@[i]).path@, "rw"@) by {
            let x = rule(v@[i].path@, "rw"@);
            lemma_single_contains(x);
            lemma_all_rules_contains(v@, i, x);
            lemma_in_vm_rules(c, groups, vsock_parent, x);
        }
    }
    if let Some(v) = c.vsock {
        let x = rule(v.socket@, "rw"@);
        match vsock_parent {
            Some(q) => {
                let y = rule(q, "w"@);
                assert(seq![y, x][0] == y && seq![y, x][1] == x);
                lemma_in_vm_rules(c, groups, vsock_parent, x);
                lemma_in_vm_rules(c, groups, vsock_parent, y);
            },
            None => {
                lemma_single_contains(x);
                lemma_in_vm_rules(c, groups, vsock_parent, x);
            },
        }
    }
    if let Some(t) = c.tpm {
        let x = rule(t.socket@, "rw"@);
        lemma_single_contains(x);
        lemma_in_vm_rules(c, groups, vsock_parent, x);
    }
}

/// The other paths of a configuration: the entropy source is read; the
/// payload's firmware, kernel and initramfs are read; console, serial and
/// debug console files and sockets are read and written, and a console on a
/// pseudo terminal reads and writes `/dev/pts` and `/dev/ptmx`; VFIO devices
/// open `/dev/vfio/vfio` and, for one given by a path, the device of its
/// IOMMU group; network devices open `/dev/net/tun`; and every rule the user
/// gave stands as given.
pub proof fn lemma_landlock_other_paths(c: VmConfig, groups: Seq<Seq<char>>, vsock_parent: Option<Seq<char>>)
    ensures
        grants(c, groups, vsock_parent, c.rng.src@, "r"@),
        c.payload matches Some(p) ==> {
            &&& p.firmware matches Some(f) ==> grants(c, groups, vsock_parent, f@, "r"@)
            &&& p.kernel matches Some(f) ==> grants(c, groups, vsock_parent, f@, "r"@)
            &&& p.initramfs matches Some(f) ==> grants(c, groups, vsock_parent, f@, "r"@)
        },
        c.console.common.file matches Some(f) ==> grants(c, groups, vsock_parent, f@, "rw"@),
        c.console.common.socket matches Some(f) ==> grants(c, groups, vsock_parent, f@, "rw"@),
        c.serial.common.file matches Some(f) ==> grants(c, groups, vsock_parent, f@, "rw"@),
        c.serial.common.socket matches Some(f) ==> grants(c, groups, vsock_parent, f@, "rw"@),
        c.debug_console.file matches Some(f) ==> grants(c, groups, vsock_parent, f@, "rw"@),
        c.console.common.mode == ConsoleOutputMode::Pty || c.serial.common.mode == ConsoleOutputMode::Pty
            || c.debug_console.mode == ConsoleOutputMode::Pty ==> grants(c, groups, vsock_parent, "/dev/pts"@, "rw"@)
            && grants(c, groups, vsock_parent, "/dev/ptmx"@, "rw"@),
        c.devices matches Some(ds) ==> {
            &&& grants(c, groups, vsock_parent, "/dev/vfio/vfio"@, "rw"@)
            &&& forall|i: int| 0 <= i < ds@.len() && (#[trigger] ds@[i]).path is Some ==> grants(
                c,
                groups,
                vsock_parent,
                vfio_group_path(groups[i]),
                "rw"@,
            )
        },
        c.net is Some ==> grants(c, groups, vsock_parent, "/dev/net/tun"@, "rw"@),
        c.landlock_rules matches Some(v) ==> forall|i: int|
            0 <= i < v@.len() ==> grants(c, groups, vsock_parent, (#[trigger] v@[i]).path@, v@[i].access@),
{
    let r = rule(c.rng.src@, "r"@);
    lemma_single_contains(r);
    lemma_in_vm_rules(c, groups, vsock_parent, r);
    if let Some(p) = c.payload {
        let a = opt_rule(p.firmware, "r"@);
        let b = opt_rule(p.kernel, "r"@);
        let d = opt_rule(p.initramfs, "r"@);
        if let Some(f) = p.firmware {
            let x = rule(f@, "r"@);
            lemma_single_contains(x);
            lemma_add_contains(a, b, x);
            lemma_add_contains(a + b, d, x);
            lemma_in_vm_rules(c, groups, vsock_parent, x);
        }
        if let Some(f) = p.kernel {
            let x = rule(f@, "r"@);
            lemma_single_contains(x);
            lemma_add_contains(a, b, x);
            lemma_add_contains(a + b, d, x);
            lemma_in_vm_rules(c, groups, vsock_parent, x);
        }
        if let Some(f) = p.initramfs {
            let x = rule(f@, "r"@);
            lemma_single_contains(x);
            lemma_add_contains(a + b, d, x);
            lemma_in_vm_rules(c, groups, vsock_parent, x);
        }
    }
    lemma_common_console_rules(c.console.common);
    lemma_common_console_rules(c.serial.common);
    if let Some(f) = c.console.common.file {
        lemma_in_vm_rules(c, groups, vsock_parent, rule(f@, "rw"@));
    }
    if let Some(f) = c.console.common.socket {
        lemma_in_vm_rules(c, groups, vsock_parent, rule(f@, "rw"@));
    }
    if let Some(f) = c.serial.common.file {
        lemma_in_vm_rules(c, groups, vsock_parent, rule(f@, "rw"@));
    }
    if let Some(f) = c.serial.common.socket {
        lemma_in_vm_rules(c, groups, vsock_parent, rule(f@, "rw"@));
    }
    let dp = pty_rules(c.debug_console.mode);
    let df = opt_rule(c.debug_console.file, "rw"@);
    if let Some(f) = c.debug_console.file {
        let x = rule(f@, "rw"@);
        lemma_single_contains(x);
        lemma_add_contains(dp, df, x);
        lemma_in_vm_rules(c, groups, vsock_parent, x);
    }
    if c.debug_console.mode == ConsoleOutputMode::Pty {
        let x = rule("/dev/pts"@, "rw"@);
        let y = rule("/dev/ptmx"@, "rw"@);
        assert(dp[0] == x && dp[1] == y);
        lemma_add_contains(dp, df, x);
        lemma_add_contains(dp, df, y);
        lemma_in_vm_rules(c, groups, vsock_parent, x);
        lemma_in_vm_rules(c, groups, vsock_parent, y);
    }
    if c.console.common.mode == ConsoleOutputMode::Pty || c.serial.common.mode == ConsoleOutputMode::Pty {
        lemma_in_vm_rules(c, groups, vsock_parent, rule("/dev/pts"@, "rw"@));
        lemma_in_vm_rules(c, groups, vsock_parent, rule("/dev/ptmx"@, "rw"@));
    }
    if let Some(ds) = c.devices {
        let head = seq![rule("/dev/vfio/vfio"@, "rw"@)];
        let x = rule("/dev/vfio/vfio"@, "rw"@);
        lemma_single_contains(x);
        lemma_add_contains(head, devices_rules(ds@, groups), x);
        lemma_in_vm_rules(c, groups, vsock_parent, x);
        assert forall|i: int| 0 <= i < ds@.len() && (#[trigger] ds@[i]).path is Some implies grants(
            c,
            groups,
            vsock_parent,
            vfio_group_path(groups[i]),
            "rw"@,
        ) by {
            let y = rule(vfio_group_path(groups[i]), "rw"@);
            lemma_devices_rules_contains(ds@, groups, i);
            lemma_add_contains(head, devices_rules(ds@, groups), y);
            lemma_in_vm_rules(c, groups, vsock_parent, y);
        }
    }
    if c.net is Some {
        let x = rule("/dev/net/tun"@, "rw"@);
        lemma_single_contains(x);
        lemma_in_vm_rules(c, groups, vsock_parent, x);
    }
    if let Some(v) = c.landlock_rules {
        assert forall|i: int| 0 <= i < v@.len() implies grants(c, groups, vsock_parent, (#[trigger] v@[i]).path@, v@[i].access@) by {
            let x = rule(v@[i].path@, v@[i].access@);
            lemma_single_contains(x);
            lemma_all_rules_contains(v@, i, x);
            lemma_in_vm_rules(c, groups, vsock_parent, x);
        }
    }
}

proof fn lemma_common_console_rules(k: CommonConsoleConfig)
    ensures
        k.file matches Some(f) ==> k.landlock_rules().contains(rule(f@, "rw"@)),
        k.socket matches Some(f) ==> k.landlock_rules().contains(rule(f@, "rw"@)),
        k.mode == ConsoleOutputMode::Pty ==> k.landlock_rules().contains(rule("/dev/pts"@, "rw"@))
            && k.landlock_rules().contains(rule("/dev/ptmx"@, "rw"@)),
{
    let a = pty_rules(k.mode);
    let b = opt_rule(k.file, "rw"@);
    let d = opt_rule(k.socket, "rw"@);
    if let Some(f) = k.file {
        let x = rule(f@, "rw"@);
        lemma_single_contains(x);
        lemma_add_contains(a, b, x);
        lemma_add_contains(a + b, d, x);
    }
    if let Some(f) = k.socket {
        let x = rule(f@, "rw"@);
        lemma_single_contains(x);
        lemma_add_contains(a + b, d, x);
    }
    if k.mode == ConsoleOutputMode::Pty {
        let x = rule("/dev/pts"@, "rw"@);
        let y = rule("/dev/ptmx"@, "rw"@);
        assert(a[0] == x && a[1] == y);
        lemma_add_contains(a, b, x);
        lemma_add_contains(a, b, y);
        lemma_add_contains(a + b, d, x);
        lemma_add_contains(a + b, d, y);
    }
}

} // verus!
