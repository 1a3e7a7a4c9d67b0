//! Checking external file descriptors against a VM configuration, and
//! handing them to its devices.
use vstd::prelude::*;

use crate::external_fds::{
    copy_target, find_entry, lemma_position_of, lemma_target_lt_irreflexive, lemma_target_lt_total,
    lemma_target_lt_transitive, position_of, target_eq, target_less, target_lt, EntrySpec, ExternalFdOperation,
    ExternalFdTarget, ExternalFds, IngestScmRightsError, TargetSpec,
};
use crate::text::string_from;
use crate::vm_config::devices::{DeviceConfig, DeviceConfigSpec};
use crate::vm_config::net::{NetConfig, NetConfigSpec};
use crate::vm_config::platform::{PlatformConfig, PlatformConfigSpec};
use crate::vm_config::vm::VmConfig;

verus! {

/// Why external file descriptors do not fit a configuration.
#[derive(Debug, PartialEq, Eq)]
pub enum FdUpdateError {
    /// A target received another number of descriptors than it uses.
    FdAmountMismatch { target: ExternalFdTarget, expected: usize, actual: usize },
    /// A target that uses no descriptors received some.
    UnexpectedFds(ExternalFdTarget),
    /// A device without id uses descriptors.
    MissingId,
    /// A target that uses descriptors received none.
    MissingFds(ExternalFdTarget),
    /// Descriptors for these targets are used by nothing.
    SuperfluousFds(Vec<ExternalFdTarget>),
    /// Two entries name the same target.
    DuplicatedTargetEntry(ExternalFdTarget),
    /// VFIO descriptors need an IOMMU descriptor.
    VfioFdsWithoutIommuFd,
    /// An IOMMU descriptor needs VFIO descriptors.
    IommuFdWithoutVfioFds,
    /// An IOMMU descriptor needs the iommufd backend.
    IommufdFdRequiresIommufd,
}

pub enum FdErr {
    FdAmountMismatch(TargetSpec, usize, usize),
    UnexpectedFds(TargetSpec),
    MissingId,
    MissingFds(TargetSpec),
    SuperfluousFds(Seq<TargetSpec>),
    DuplicatedTargetEntry(TargetSpec),
    VfioFdsWithoutIommuFd,
    IommuFdWithoutVfioFds,
    IommufdFdRequiresIommufd,
    /// The targets (as a set) that nothing uses; reported as their sorted list.
    Unused(Set<TargetSpec>),
}

pub open spec fn target_views(v: Seq<ExternalFdTarget>) -> Seq<TargetSpec> {
    Seq::new(v.len(), |i: int| v[i]@)
}

impl View for FdUpdateError {
    type V = FdErr;

    open spec fn view(&self) -> FdErr {
        match self {
            FdUpdateError::FdAmountMismatch { target, expected, actual } => FdErr::FdAmountMismatch(
                target@,
                *expected,
                *actual,
            ),
            FdUpdateError::UnexpectedFds(t) => FdErr::UnexpectedFds(t@),
            FdUpdateError::MissingId => FdErr::MissingId,
            FdUpdateError::MissingFds(t) => FdErr::MissingFds(t@),
            FdUpdateError::SuperfluousFds(l) => FdErr::SuperfluousFds(target_views(l@)),
            FdUpdateError::DuplicatedTargetEntry(t) => FdErr::DuplicatedTargetEntry(t@),
            FdUpdateError::VfioFdsWithoutIommuFd => FdErr::VfioFdsWithoutIommuFd,
            FdUpdateError::IommuFdWithoutVfioFds => FdErr::IommuFdWithoutVfioFds,
            FdUpdateError::IommufdFdRequiresIommufd => FdErr::IommufdFdRequiresIommufd,
        }
    }
}

/// `l` is strictly increasing in the order of targets.
pub open spec fn sorted(l: Seq<TargetSpec>) -> bool {
    forall|i: int, j: int| 0 <= i < j < l.len() ==> target_lt(l[i], l[j])
}

/// The error `e` reports the verdict error `v`: the same error, or, for
/// unused targets, their sorted list.
pub open spec fn reports(e: FdErr, v: FdErr) -> bool {
    match v {
        FdErr::Unused(s) => e matches FdErr::SuperfluousFds(l) && sorted(l) && l.to_set() == s,
        _ => e == v,
    }
}

// ---------------------------------------------------------------------------
// The checks of one device
// ---------------------------------------------------------------------------

/// The check of a net device with `id` and descriptors `fds`: the target it
/// uses up, if any.
pub open spec fn net_check(id: Option<Seq<char>>, fds: Option<Seq<i32>>, x: Seq<EntrySpec>) -> Result<Option<TargetSpec>, FdErr> {
    match id {
        None => if fds is Some {
            Err(FdErr::MissingId)
        } else {
            Ok(None)
        },
        Some(id) => {
            let t = TargetSpec::Net(id);
            match fds {
                None => if find_entry(x, t) is Some {
                    Err(FdErr::UnexpectedFds(t))
                } else {
                    Ok(None)
                },
                Some(nf) => match find_entry(x, t) {
                    None => Err(FdErr::MissingFds(t)),
                    Some(e) => if nf.len() != e.received.len() {
                        Err(FdErr::FdAmountMismatch(t, nf.len() as usize, e.received.len() as usize))
                    } else {
                        Ok(Some(t))
                    },
                },
            }
        },
    }
}

/// The check of a VFIO device with `id`, which has a descriptor when
/// `has_fd`: what counts depends on the operation.
pub open spec fn device_check(id: Option<Seq<char>>, has_fd: bool, x: Seq<EntrySpec>, op: ExternalFdOperation) -> Result<Option<TargetSpec>, FdErr> {
    match id {
        None => if has_fd {
            Err(FdErr::MissingId)
        } else {
            Ok(None)
        },
        Some(id) => {
            let t = TargetSpec::Vfio(id);
            let found = find_entry(x, t);
            let pick: Result<Option<EntrySpec>, FdErr> = match op {
                ExternalFdOperation::Restore => match found {
                    Some(e) => Ok(Some(e)),
                    None => if has_fd {
                        Err(FdErr::MissingFds(t))
                    } else {
                        Ok(None)
                    },
                },
                ExternalFdOperation::ReceiveMigration => match found {
                    Some(e) => Ok(Some(e)),
                    None => Err(FdErr::MissingFds(t)),
                },
                ExternalFdOperation::VmCreate => match found {
                    Some(e) => if has_fd {
                        Ok(Some(e))
                    } else {
                        Err(FdErr::SuperfluousFds(seq![t]))
                    },
                    None => if has_fd {
                        Err(FdErr::MissingFds(t))
                    } else {
                        Ok(None)
                    },
                },
            };
            match pick {
                Err(e) => Err(e),
                Ok(None) => Ok(None),
                Ok(Some(e)) => if e.received.len() != 1 {
                    Err(FdErr::FdAmountMismatch(t, 1, e.received.len() as usize))
                } else {
                    Ok(Some(t))
                },
            }
        },
    }
}

/// The check of the platform: an IOMMU descriptor needs the iommufd backend
/// and is exactly one.
pub open spec fn platform_check(iommufd: bool, x: Seq<EntrySpec>) -> Result<Option<TargetSpec>, FdErr> {
    match find_entry(x, TargetSpec::Iommu) {
        None => Ok(None),
        Some(e) => if !iommufd {
            Err(FdErr::IommufdFdRequiresIommufd)
        } else if e.received.len() == 1 {
            Ok(Some(TargetSpec::Iommu))
        } else {
            Err(FdErr::FdAmountMismatch(TargetSpec::Iommu, 1, e.received.len() as usize))
        },
    }
}

pub open spec fn with_target(s: Set<TargetSpec>, o: Option<TargetSpec>) -> Set<TargetSpec> {
    match o {
        Some(t) => s.insert(t),
        None => s,
    }
}

/// The checks of the net devices in order: the first error, or the targets
/// they use up.
pub open spec fn nets_check(nets: Seq<NetConfigSpec>, x: Seq<EntrySpec>) -> Result<Set<TargetSpec>, FdErr>
    decreases nets.len(),
{
    if nets.len() == 0 {
        Ok(Set::empty())
    } else {
        match nets_check(nets.drop_last(), x) {
            Err(e) => Err(e),
            Ok(s) => match net_check(nets.last().pci_common.id, nets.last().fds, x) {
                Err(e) => Err(e),
                Ok(o) => Ok(with_target(s, o)),
            },
        }
    }
}

/// The checks of the VFIO devices in order.
pub open spec fn devices_check(devs: Seq<DeviceConfigSpec>, x: Seq<EntrySpec>, op: ExternalFdOperation) -> Result<Set<TargetSpec>, FdErr>
    decreases devs.len(),
{
    if devs.len() == 0 {
        Ok(Set::empty())
    } else {
        match devices_check(devs.drop_last(), x, op) {
            Err(e) => Err(e),
            Ok(s) => match device_check(devs.last().pci_common.id, devs.last().fd is Some, x, op) {
                Err(e) => Err(e),
                Ok(o) => Ok(with_target(s, o)),
            },
        }
    }
}

pub open spec fn entry_targets(x: Seq<EntrySpec>) -> Seq<TargetSpec> {
    Seq::new(x.len(), |i: int| x[i].target)
}

/// The first target that an earlier entry already named.
pub open spec fn first_duplicate(ts: Seq<TargetSpec>) -> Option<TargetSpec>
    decreases ts.len(),
{
    if ts.len() == 0 {
        None
    } else {
        match first_duplicate(ts.drop_last()) {
            Some(t) => Some(t),
            None => if ts.drop_last().contains(ts.last()) {
                Some(ts.last())
            } else {
                None
            },
        }
    }
}

/// The verdict on the entries `x` for a configuration with net devices
/// `nets`, VFIO devices `devs` and platform `plat` (its iommufd setting):
/// no target twice; each device's check, in order; VFIO and IOMMU
/// descriptors together; and every target used by something.
pub open spec fn fd_verdict(
    nets: Seq<NetConfigSpec>,
    devs: Seq<DeviceConfigSpec>,
    plat: Option<bool>,
    x: Seq<EntrySpec>,
    op: ExternalFdOperation,
) -> Result<(), FdErr> {
    match first_duplicate(entry_targets(x)) {
        Some(t) => Err(FdErr::DuplicatedTargetEntry(t)),
        None => {
            let all = entry_targets(x).to_set();
            let iommu = all.contains(TargetSpec::Iommu);
            let vfio = exists|t: TargetSpec| all.contains(t) && t is Vfio;
            match nets_check(nets, x) {
                Err(e) => Err(e),
                Ok(r1) => match devices_check(devs, x, op) {
                    Err(e) => Err(e),
                    Ok(r2) => match (match plat {
                        Some(iommufd) => platform_check(iommufd, x),
                        None => Ok(None),
                    }) {
                        Err(e) => Err(e),
                        Ok(r3) => if vfio && !iommu {
                            Err(FdErr::VfioFdsWithoutIommuFd)
                        } else if iommu && !vfio {
                            Err(FdErr::IommuFdWithoutVfioFds)
                        } else {
                            let remaining = all.difference(r1).difference(r2).difference(
                                with_target(Set::empty(), r3),
                            );
                            if remaining == Set::<TargetSpec>::empty() {
                                Ok(())
                            } else {
                                Err(FdErr::Unused(remaining))
                            }
                        },
                    },
                },
            }
        },
    }
}


// ---------------------------------------------------------------------------
// A sorted set of targets
// ---------------------------------------------------------------------------

/// Targets in increasing order, each once.
pub struct SortedTargets {
    items: Vec<ExternalFdTarget>,
}

impl View for SortedTargets {
    type V = Seq<TargetSpec>;

    closed spec fn view(&self) -> Seq<TargetSpec> {
        target_views(self.items@)
    }
}

impl SortedTargets {
    pub fn new() -> (r: Self)
        ensures
            r@ == Seq::<TargetSpec>::empty(),
    {
        let r = SortedTargets { items: Vec::new() };
        assert(r@ =~= Seq::<TargetSpec>::empty());
        r
    }

    /// Adds `t`; false when it was there already (nothing changes then).
    pub fn insert(&mut self, t: ExternalFdTarget) -> (r: bool)
        requires
            sorted(old(self)@),
        ensures
            sorted(final(self)@),
            final(self)@.to_set() == old(self)@.to_set().insert(t@),
            r == !old(self)@.contains(t@),
            !r ==> final(self)@ == old(self)@,
    {
        let ghost old_v = self@;
        let mut k: usize = 0;
        while k < self.items.len()
            invariant
                old_v == self@,
                self@.len() == self.items@.len(),
                k <= self@.len(),
                forall|j: int| 0 <= j < k ==> target_lt(#[trigger] self@[j], t@),
            ensures
                old_v == self@,
                k <= self@.len(),
                forall|j: int| 0 <= j < k ==> target_lt(#[trigger] self@[j], t@),
                k < self@.len() ==> !target_lt(self@[k as int], t@),
            decreases self@.len() - k,
        {
            if !target_less(&self.items[k], &t) {
                break;
            }
            k = k + 1;
        }
        if k < self.items.len() && target_eq(&self.items[k], &t) {
            assert(self@[k as int] == t@);
            assert(self@.to_set().insert(t@) =~= self@.to_set());
            return false;
        }
        proof {
            if k < old_v.len() {
                lemma_target_lt_total(old_v[k as int], t@);
            }
            assert forall|j: int| 0 <= j < old_v.len() implies old_v[j] != t@ by {
                if j < k {
                    lemma_target_lt_irreflexive(t@);
                } else {
                    if j > k {
                        lemma_target_lt_transitive(t@, old_v[k as int], old_v[j]);
                    }
                    lemma_target_lt_irreflexive(t@);
                }
            }
        }
        let ghost tv = t@;
        self.items.insert(k, t);
        assert(self@ =~= old_v.insert(k as int, tv));
        proof {
            let n = self@;
            assert forall|i: int, j: int| 0 <= i < j < n.len() implies target_lt(n[i], n[j]) by {
                if j < k {
                } else if j == k {
                } else if i < k {
                    lemma_target_lt_transitive(n[i], tv, old_v[k as int]);
                    if j - 1 > k {
                        lemma_target_lt_transitive(n[i], old_v[k as int], old_v[j - 1]);
                    }
                } else if i == k {
                    if j - 1 > k {
                        lemma_target_lt_transitive(tv, old_v[k as int], old_v[j - 1]);
                    }
                } else {
                }
            }
            assert forall|a: TargetSpec| n.contains(a) <==> old_v.contains(a) || a == tv by {
                if n.contains(a) {
                    let i = choose|i: int| 0 <= i < n.len() && n[i] == a;
                    if i < k {
                        assert(old_v[i] == a);
                    } else if i > k {
                        assert(old_v[i - 1] == a);
                    }
                }
                if old_v.contains(a) {
                    let i = choose|i: int| 0 <= i < old_v.len() && old_v[i] == a;
                    if i < k {
                        assert(n[i] == a);
                    } else {
                        assert(n[i + 1] == a);
                    }
                }
                if a == tv {
                    assert(n[k as int] == a);
                }
            }
            assert(n.to_set() =~= old_v.to_set().insert(tv));
        }
        true
    }

    /// Takes `t` out, when it is there.
    pub fn remove(&mut self, t: &ExternalFdTarget)
        requires
            sorted(old(self)@),
        ensures
            sorted(final(self)@),
            final(self)@.to_set() == old(self)@.to_set().remove(t@),
    {
        let ghost old_v = self@;
        let mut k: usize = 0;
        while k < self.items.len()
            invariant
                old_v == self@,
                self@.len() == self.items@.len(),
                k <= self@.len(),
                forall|j: int| 0 <= j < k ==> self@[j] != t@,
            ensures
                old_v == self@,
                k <= self@.len(),
                forall|j: int| 0 <= j < k ==> self@[j] != t@,
                k < self@.len() ==> self@[k as int] == t@,
            decreases self@.len() - k,
        {
            if target_eq(&self.items[k], t) {
                break;
            }
            k = k + 1;
        }
        if k == self.items.len() {
            assert(old_v.to_set().remove(t@) =~= old_v.to_set());
            return;
        }
        assert(old_v[k as int] == t@);
        let _ = self.items.remove(k);
        assert(self@ =~= old_v.remove(k as int));
        proof {
            let n = self@;
            assert forall|i: int, j: int| 0 <= i < j < n.len() implies target_lt(n[i], n[j]) by {
                if i < k && j >= k {
                    assert(n[j] == old_v[j + 1]);
                } else if i >= k {
                    assert(n[i] == old_v[i + 1] && n[j] == old_v[j + 1]);
                }
            }
            assert forall|a: TargetSpec| n.contains(a) <==> old_v.contains(a) && a != t@ by {
                if n.contains(a) {
                    let i = choose|i: int| 0 <= i < n.len() && n[i] == a;
                    if i < k {
                        assert(old_v[i] == a);
                    } else {
                        assert(old_v[i + 1] == a);
                        lemma_target_lt_irreflexive(t@);
                        assert(target_lt(old_v[k as int], old_v[i + 1]));
                    }
                }
                if old_v.contains(a) && a != t@ {
                    let i = choose|i: int| 0 <= i < old_v.len() && old_v[i] == a;
                    if i < k {
                        assert(n[i] == a);
                    } else {
                        assert(i != k);
                        assert(n[i - 1] == a);
                    }
                }
            }
            assert(n.to_set() =~= old_v.to_set().remove(t@));
        }
    }

    /// Whether `t` is in the set.
    pub fn contains(&self, t: &ExternalFdTarget) -> (r: bool)
        ensures
            r == self@.contains(t@),
    {
        let mut k: usize = 0;
        while k < self.items.len()
            invariant
                self@.len() == self.items@.len(),
                k <= self@.len(),
                forall|j: int| 0 <= j < k ==> self@[j] != t@,
            decreases self@.len() - k,
        {
            if target_eq(&self.items[k], t) {
                assert(self@[k as int] == t@);
                return true;
            }
            k = k + 1;
        }
        false
    }

    /// Whether a VFIO target is in the set.
    pub fn any_vfio(&self) -> (r: bool)
        ensures
            r == exists|t: TargetSpec| self@.contains(t) && t is Vfio,
    {
        let mut k: usize = 0;
        while k < self.items.len()
            invariant
                self@.len() == self.items@.len(),
                k <= self@.len(),
                forall|j: int| 0 <= j < k ==> !(self@[j] is Vfio),
            decreases self@.len() - k,
        {
            if let ExternalFdTarget::Vfio { .. } = &self.items[k] {
                assert(self@.contains(self@[k as int]));
                return true;
            }
            k = k + 1;
        }
        false
    }

    /// The targets, in increasing order.
    pub fn into_vec(self) -> (r: Vec<ExternalFdTarget>)
        ensures
            target_views(r@) == self@,
    {
        self.items
    }

    /// Whether the set is empty.
    pub fn is_empty(&self) -> (r: bool)
        ensures
            r == (self@.len() == 0),
    {
        self.items.len() == 0
    }
}


// ---------------------------------------------------------------------------
// Checking a configuration
// ---------------------------------------------------------------------------

pub open spec fn target_opt_view(o: Option<ExternalFdTarget>) -> Option<TargetSpec> {
    match o {
        Some(t) => Some(t@),
        None => None,
    }
}

pub open spec fn net_views(n: Option<Vec<NetConfig>>) -> Seq<NetConfigSpec> {
    match n {
        Some(v) => Seq::new(v@.len(), |i: int| v@[i]@),
        None => Seq::empty(),
    }
}

pub open spec fn device_views(d: Option<Vec<DeviceConfig>>) -> Seq<DeviceConfigSpec> {
    match d {
        Some(v) => Seq::new(v@.len(), |i: int| v@[i]@),
        None => Seq::empty(),
    }
}

pub open spec fn platform_iommufd(p: Option<PlatformConfig>) -> Option<bool> {
    match p {
        Some(p) => Some(p.iommufd),
        None => None,
    }
}

/// The verdict on `x` for the configuration `c`.
pub open spec fn config_verdict(c: &VmConfig, x: Seq<EntrySpec>, op: ExternalFdOperation) -> Result<(), FdErr> {
    fd_verdict(net_views(c.net), device_views(c.devices), platform_iommufd(c.platform), x, op)
}

fn id_target_net(id: &String) -> (r: ExternalFdTarget)
    ensures
        r@ == TargetSpec::Net(id@),
{
    ExternalFdTarget::Net { id: string_from(id.as_str()) }
}

fn id_target_vfio(id: &String) -> (r: ExternalFdTarget)
    ensures
        r@ == TargetSpec::Vfio(id@),
{
    ExternalFdTarget::Vfio { id: string_from(id.as_str()) }
}

impl NetConfig {
    /// The check of this device against `external_fds`: the target it uses
    /// up, if any.
    pub fn validate_fds(&self, external_fds: &ExternalFds, operation: ExternalFdOperation) -> (r: Result<
        Option<ExternalFdTarget>,
        FdUpdateError,
    >)
        ensures
            match net_check(self@.pci_common.id, self@.fds, external_fds@) {
                Ok(o) => r matches Ok(t) && target_opt_view(t) == o,
                Err(e) => r matches Err(y) && y@ == e,
            },
    {
        let id = match &self.pci_common.id {
            None => {
                return if self.fds.is_some() {
                    Err(FdUpdateError::MissingId)
                } else {
                    Ok(None)
                };
            },
            Some(id) => id,
        };
        let target = id_target_net(id);
        let net_fds = match &self.fds {
            None => {
                return if external_fds.entry(&target).is_some() {
                    Err(FdUpdateError::UnexpectedFds(target))
                } else {
                    Ok(None)
                };
            },
            Some(f) => f,
        };
        let received = match external_fds.entry(&target) {
            None => return Err(FdUpdateError::MissingFds(target)),
            Some(e) => e,
        };
        if net_fds.len() != received.fds().len() {
            let actual = received.fds().len();
            return Err(FdUpdateError::FdAmountMismatch { target, expected: net_fds.len(), actual });
        }
        Ok(Some(target))
    }
}

impl DeviceConfig {
    /// The check of this device against `external_fds`: the target it uses
    /// up, if any.
    pub fn validate_fds(&self, external_fds: &ExternalFds, operation: ExternalFdOperation) -> (r: Result<
        Option<ExternalFdTarget>,
        FdUpdateError,
    >)
        ensures
            match device_check(self@.pci_common.id, self.fd is Some, external_fds@, operation) {
                Ok(o) => r matches Ok(t) && target_opt_view(t) == o,
                Err(e) => r matches Err(y) && y@ == e,
            },
    {
        let id = match &self.pci_common.id {
            None => {
                return if self.fd.is_some() {
                    Err(FdUpdateError::MissingId)
                } else {
                    Ok(None)
                };
            },
            Some(id) => id,
        };
        let target = id_target_vfio(id);
        let has_fd = self.fd.is_some();
        let found = external_fds.entry(&target);
        let received = match operation {
            ExternalFdOperation::Restore => match found {
                Some(e) => e,
                None => {
                    return if has_fd {
                        Err(FdUpdateError::MissingFds(target))
                    } else {
                        Ok(None)
                    };
                },
            },
            ExternalFdOperation::ReceiveMigration => match found {
                Some(e) => e,
                None => return Err(FdUpdateError::MissingFds(target)),
            },
            ExternalFdOperation::VmCreate => match found {
                Some(e) => if has_fd {
                    e
                } else {
                    let mut l: Vec<ExternalFdTarget> = Vec::new();
                    let ghost tv = target@;
                    l.push(target);
                    assert(target_views(l@) =~= seq![tv]);
                    return Err(FdUpdateError::SuperfluousFds(l));
                },
                None => {
                    return if has_fd {
                        Err(FdUpdateError::MissingFds(target))
                    } else {
                        Ok(None)
                    };
                },
            },
        };
        if received.fds().len() != 1 {
            let actual = received.fds().len();
            return Err(FdUpdateError::FdAmountMismatch { target, expected: 1, actual });
        }
        Ok(Some(target))
    }
}

impl PlatformConfig {
    /// The check of the platform against `external_fds`: the IOMMU target,
    /// when it uses it up.
    pub fn validate_fds(&self, external_fds: &ExternalFds, operation: ExternalFdOperation) -> (r: Result<
        Option<ExternalFdTarget>,
        FdUpdateError,
    >)
        ensures
            match platform_check(self.iommufd, external_fds@) {
                Ok(o) => r matches Ok(t) && target_opt_view(t) == o,
                Err(e) => r matches Err(y) && y@ == e,
            },
    {
        let target = ExternalFdTarget::Iommu;
        let received = match external_fds.entry(&target) {
            None => return Ok(None),
            Some(e) => e,
        };
        if !self.iommufd {
            return Err(FdUpdateError::IommufdFdRequiresIommufd);
        }
        let len = received.fds().len();
        if len == 1 {
            Ok(Some(target))
        } else {
            Err(FdUpdateError::FdAmountMismatch { target, expected: 1, actual: len })
        }
    }
}

proof fn lemma_duplicate_prefix(s: Seq<TargetSpec>, i: int)
    requires
        0 <= i <= s.len(),
        first_duplicate(s.take(i)) is Some,
    ensures
        first_duplicate(s) == first_duplicate(s.take(i)),
    decreases s.len() - i,
{
    if i < s.len() {
        assert(s.take(i + 1).drop_last() =~= s.take(i));
        lemma_duplicate_prefix(s, i + 1);
    } else {
        assert(s.take(i) =~= s);
    }
}

proof fn lemma_nets_err_prefix(n: Seq<NetConfigSpec>, x: Seq<EntrySpec>, i: int)
    requires
        0 <= i <= n.len(),
        nets_check(n.take(i), x) is Err,
    ensures
        nets_check(n, x) == nets_check(n.take(i), x),
    decreases n.len() - i,
{
    if i < n.len() {
        assert(n.take(i + 1).drop_last() =~= n.take(i));
        lemma_nets_err_prefix(n, x, i + 1);
    } else {
        assert(n.take(i) =~= n);
    }
}

proof fn lemma_devices_err_prefix(d: Seq<DeviceConfigSpec>, x: Seq<EntrySpec>, op: ExternalFdOperation, i: int)
    requires
        0 <= i <= d.len(),
        devices_check(d.take(i), x, op) is Err,
    ensures
        devices_check(d, x, op) == devices_check(d.take(i), x, op),
    decreases d.len() - i,
{
    if i < d.len() {
        assert(d.take(i + 1).drop_last() =~= d.take(i));
        lemma_devices_err_prefix(d, x, op, i + 1);
    } else {
        assert(d.take(i) =~= d);
    }
}

proof fn lemma_seq_empty_set<A>(s: Seq<A>)
    ensures
        (s.len() == 0) == (s.to_set() == Set::<A>::empty()),
{
    if s.len() > 0 {
        assert(s.to_set().contains(s[0]));
    } else {
        assert(s.to_set() =~= Set::<A>::empty());
    }
}

/// Records the targets of `x` in order in a sorted set; the first target
/// named twice is the error.
fn collect_targets(external_fds: &ExternalFds) -> (r: Result<SortedTargets, ExternalFdTarget>)
    ensures
        match first_duplicate(entry_targets(external_fds@)) {
            Some(t) => r matches Err(x) && x@ == t,
            None => r matches Ok(s) && sorted(s@) && s@.to_set() == entry_targets(external_fds@).to_set(),
        },
{
    let ghost x = external_fds@;
    let ghost ts = entry_targets(x);
    let mut set = SortedTargets::new();
    let mut i: usize = 0;
    assert(ts.take(0) =~= Seq::<TargetSpec>::empty());
    assert(set@.to_set() =~= Set::<TargetSpec>::empty());
    assert(ts.take(0).to_set() =~= Set::<TargetSpec>::empty());
    while i < external_fds.external_fds.len()
        invariant
            x == external_fds@,
            ts == entry_targets(x),
            i <= x.len(),
            x.len() == external_fds.external_fds@.len(),
            sorted(set@),
            set@.to_set() == ts.take(i as int).to_set(),
            first_duplicate(ts.take(i as int)) is None,
        decreases x.len() - i,
    {
        let t = copy_target(&external_fds.external_fds[i].target);
        let ghost tv = t@;
        assert(tv == ts[i as int]);
        assert(ts.take(i as int + 1).drop_last() =~= ts.take(i as int));
        assert(ts.take(i as int + 1).last() == tv);
        assert(ts.take(i as int + 1).to_set() =~= ts.take(i as int).to_set().insert(tv));
        let ghost before = set@;
        assert(before.to_set().contains(tv) == before.contains(tv));
        assert(ts.take(i as int).to_set().contains(tv) == ts.take(i as int).contains(tv));
        let fresh = set.insert(t);
        if !fresh {
            proof {
                lemma_duplicate_prefix(ts, i as int + 1);
            }
            return Err(copy_target(&external_fds.external_fds[i].target));
        }
        i = i + 1;
    }
    assert(ts.take(x.len() as int) =~= ts);
    Ok(set)
}

impl VmConfig {
    /// Checks `external_fds` against the devices of the configuration: no
    /// target twice; each net device, VFIO device and the platform in turn;
    /// VFIO and IOMMU descriptors together; and every target used.
    pub fn validate_fds(&self, external_fds: &ExternalFds, operation: ExternalFdOperation) -> (r: Result<(), FdUpdateError>)
        ensures
            match config_verdict(self, external_fds@, operation) {
                Ok(()) => r is Ok,
                Err(v) => r matches Err(e) && reports(e@, v),
            },
    {
        let ghost x = external_fds@;
        let mut to_validate = match collect_targets(external_fds) {
            Ok(s) => s,
            Err(t) => return Err(FdUpdateError::DuplicatedTargetEntry(t)),
        };
        let ghost all = entry_targets(x).to_set();
        let iommu_fd = to_validate.contains(&ExternalFdTarget::Iommu);
        let vfio_fd = to_validate.any_vfio();
        proof {
            let tv = to_validate@;
            assert(tv.to_set().contains(TargetSpec::Iommu) == tv.contains(TargetSpec::Iommu));
            assert(iommu_fd == all.contains(TargetSpec::Iommu));
            if vfio_fd {
                let t = choose|t: TargetSpec| tv.contains(t) && t is Vfio;
                assert(tv.to_set().contains(t));
                assert(all.contains(t));
            }
            if exists|t: TargetSpec| all.contains(t) && t is Vfio {
                let t = choose|t: TargetSpec| all.contains(t) && t is Vfio;
                assert(tv.to_set().contains(t));
                assert(tv.contains(t));
            }
            assert(vfio_fd == exists|t: TargetSpec| all.contains(t) && t is Vfio);
        }
        let ghost nets = net_views(self.net);
        let ghost mut r1: Set<TargetSpec> = Set::empty();
        if let Some(net_configs) = &self.net {
            let mut i: usize = 0;
            assert(nets.take(0) =~= Seq::<NetConfigSpec>::empty());
            while i < net_configs.len()
                invariant
                    nets == Seq::new(net_configs@.len(), |k: int| net_configs@[k]@),
                    nets == net_views(self.net),
                    first_duplicate(entry_targets(x)) is None,
                    all == entry_targets(x).to_set(),
                    i <= nets.len(),
                    x == external_fds@,
                    nets_check(nets.take(i as int), x) == Ok::<Set<TargetSpec>, FdErr>(r1),
                    sorted(to_validate@),
                    to_validate@.to_set() == all.difference(r1),
                decreases nets.len() - i,
            {
                assert(nets.take(i as int + 1).drop_last() =~= nets.take(i as int));
                assert(nets.take(i as int + 1).last() == net_configs@[i as int]@);
                match net_configs[i].validate_fds(external_fds, operation) {
                    Err(e) => {
                        proof {
                            lemma_nets_err_prefix(nets, x, i as int + 1);
                        }
                        return Err(e);
                    },
                    Ok(Some(t)) => {
                        proof {
                            r1 = r1.insert(t@);
                        }
                        to_validate.remove(&t);
                        assert(all.difference(r1) =~= all.difference(r1.remove(t@)).remove(t@));
                    },
                    Ok(None) => {},
                }
                i = i + 1;
            }
            assert(nets.take(nets.len() as int) =~= nets);
        }
        assert(nets_check(nets, x) == Ok::<Set<TargetSpec>, FdErr>(r1));
        let ghost devs = device_views(self.devices);
        let ghost mut r2: Set<TargetSpec> = Set::empty();
        if let Some(device_configs) = &self.devices {
            let mut i: usize = 0;
            assert(devs.take(0) =~= Seq::<DeviceConfigSpec>::empty());
            while i < device_configs.len()
                invariant
                    devs == Seq::new(device_configs@.len(), |k: int| device_configs@[k]@),
                    devs == device_views(self.devices),
                    nets == net_views(self.net),
                    nets_check(nets, x) == Ok::<Set<TargetSpec>, FdErr>(r1),
                    first_duplicate(entry_targets(x)) is None,
                    all == entry_targets(x).to_set(),
                    i <= devs.len(),
                    x == external_fds@,
                    devices_check(devs.take(i as int), x, operation) == Ok::<Set<TargetSpec>, FdErr>(r2),
                    sorted(to_validate@),
                    to_validate@.to_set() == all.difference(r1).difference(r2),
                decreases devs.len() - i,
            {
                assert(devs.take(i as int + 1).drop_last() =~= devs.take(i as int));
                assert(devs.take(i as int + 1).last() == device_configs@[i as int]@);
                match device_configs[i].validate_fds(external_fds, operation) {
                    Err(e) => {
                        proof {
                            lemma_devices_err_prefix(devs, x, operation, i as int + 1);
                        }
                        return Err(e);
                    },
                    Ok(Some(t)) => {
                        proof {
                            r2 = r2.insert(t@);
                        }
                        to_validate.remove(&t);
                        assert(all.difference(r1).difference(r2) =~= all.difference(r1).difference(
                            r2.remove(t@),
                        ).remove(t@));
                    },
                    Ok(None) => {},
                }
                i = i + 1;
            }
            assert(devs.take(devs.len() as int) =~= devs);
        }
        assert(devices_check(devs, x, operation) == Ok::<Set<TargetSpec>, FdErr>(r2));
        let ghost mut r3: Option<TargetSpec> = None;
        if let Some(platform_config) = &self.platform {
            match platform_config.validate_fds(external_fds, operation) {
                Err(e) => return Err(e),
                Ok(Some(t)) => {
                    proof {
                        r3 = Some(t@);
                    }
                    to_validate.remove(&t);
                },
                Ok(None) => {},
            }
        }
        let ghost remaining = all.difference(r1).difference(r2).difference(with_target(Set::empty(), r3));
        assert(to_validate@.to_set() =~= remaining);
        if vfio_fd && !iommu_fd {
            return Err(FdUpdateError::VfioFdsWithoutIommuFd);
        }
        if iommu_fd && !vfio_fd {
            return Err(FdUpdateError::IommuFdWithoutVfioFds);
        }
        proof {
            lemma_seq_empty_set(to_validate@);
        }
        if to_validate.is_empty() {
            Ok(())
        } else {
            Err(FdUpdateError::SuperfluousFds(to_validate.into_vec()))
        }
    }
}

// ---------------------------------------------------------------------------
// Handing the descriptors to the devices
// ---------------------------------------------------------------------------

/// The net device after the update: with an id whose target no earlier
/// device took, it gets the descriptors of that target's entry.
pub open spec fn take_net(n: NetConfigSpec, x: Seq<EntrySpec>, taken: Set<TargetSpec>) -> (NetConfigSpec, Set<TargetSpec>) {
    match n.pci_common.id {
        None => (n, taken),
        Some(id) => {
            let t = TargetSpec::Net(id);
            if taken.contains(t) {
                (n, taken)
            } else {
                match find_entry(x, t) {
                    None => (n, taken),
                    Some(e) => (NetConfigSpec { fds: Some(e.received), ..n }, taken.insert(t)),
                }
            }
        },
    }
}

/// The VFIO device after the update: it gets the last descriptor of its
/// target's entry and loses its path.
pub open spec fn take_device(d: DeviceConfigSpec, x: Seq<EntrySpec>, taken: Set<TargetSpec>) -> (DeviceConfigSpec, Set<TargetSpec>) {
    match d.pci_common.id {
        None => (d, taken),
        Some(id) => {
            let t = TargetSpec::Vfio(id);
            if taken.contains(t) {
                (d, taken)
            } else {
                match find_entry(x, t) {
                    None => (d, taken),
                    Some(e) => (DeviceConfigSpec { fd: Some(e.received.last()), path: None, ..d }, taken.insert(t)),
                }
            }
        },
    }
}

/// The net devices after the update, in order.
pub open spec fn nets_apply(nets: Seq<NetConfigSpec>, x: Seq<EntrySpec>) -> (Seq<NetConfigSpec>, Set<TargetSpec>)
    decreases nets.len(),
{
    if nets.len() == 0 {
        (Seq::empty(), Set::empty())
    } else {
        let (a, tk) = nets_apply(nets.drop_last(), x);
        let (b, tk2) = take_net(nets.last(), x, tk);
        (a.push(b), tk2)
    }
}

/// The VFIO devices after the update, in order; `taken` are the targets that
/// the net devices took.
pub open spec fn devices_apply(devs: Seq<DeviceConfigSpec>, x: Seq<EntrySpec>, taken: Set<TargetSpec>) -> (Seq<DeviceConfigSpec>, Set<TargetSpec>)
    decreases devs.len(),
{
    if devs.len() == 0 {
        (Seq::empty(), taken)
    } else {
        let (a, tk) = devices_apply(devs.drop_last(), x, taken);
        let (b, tk2) = take_device(devs.last(), x, tk);
        (a.push(b), tk2)
    }
}

/// The platform after the update: it gets the last IOMMU descriptor.
pub open spec fn platform_apply(p: PlatformConfigSpec, x: Seq<EntrySpec>) -> PlatformConfigSpec {
    match find_entry(x, TargetSpec::Iommu) {
        None => p,
        Some(e) => PlatformConfigSpec { iommufd_fd: Some(e.received.last()), ..p },
    }
}

/// No two entries name the same target.
pub open spec fn unique_targets(x: Seq<EntrySpec>) -> bool {
    forall|i: int, j: int| 0 <= i < x.len() && 0 <= j < x.len() && i != j ==> x[i].target != x[j].target
}

/// `cur` holds the entries of `x` whose targets were not taken.
pub open spec fn remains(cur: Seq<EntrySpec>, x: Seq<EntrySpec>, taken: Set<TargetSpec>) -> bool {
    &&& unique_targets(cur)
    &&& forall|e: EntrySpec| cur.contains(e) <==> (x.contains(e) && !taken.contains(e.target))
}

proof fn lemma_unique_of_no_duplicate(x: Seq<EntrySpec>)
    requires
        first_duplicate(entry_targets(x)) is None,
    ensures
        unique_targets(x),
    decreases x.len(),
{
    if x.len() > 0 {
        let ts = entry_targets(x);
        assert(ts.drop_last() =~= entry_targets(x.drop_last()));
        lemma_unique_of_no_duplicate(x.drop_last());
        assert forall|i: int, j: int| 0 <= i < x.len() && 0 <= j < x.len() && i != j implies x[i].target
            != x[j].target by {
            if i < x.len() - 1 && j < x.len() - 1 {
                assert(x.drop_last()[i] == x[i] && x.drop_last()[j] == x[j]);
            } else if i == x.len() - 1 {
                assert(ts.drop_last()[j] == x[j].target);
            } else {
                assert(ts.drop_last()[i] == x[i].target);
            }
        }
    }
}

proof fn lemma_find_in_remains(cur: Seq<EntrySpec>, x: Seq<EntrySpec>, taken: Set<TargetSpec>, t: TargetSpec)
    requires
        remains(cur, x, taken),
        unique_targets(x),
        !taken.contains(t),
    ensures
        find_entry(cur, t) == find_entry(x, t),
{
    lemma_position_of(cur, t);
    lemma_position_of(x, t);
    match position_of(x, t) {
        Some(p) => {
            assert(x.contains(x[p]));
            assert(cur.contains(x[p]));
            let q = choose|q: int| 0 <= q < cur.len() && cur[q] == x[p];
            match position_of(cur, t) {
                Some(q2) => {
                    if q2 != q {
                        assert(cur[q2].target != cur[q].target);
                    }
                },
                None => {
                    assert(cur[q].target == t);
                },
            }
        },
        None => {
            match position_of(cur, t) {
                Some(q) => {
                    assert(cur.contains(cur[q]));
                    assert(x.contains(cur[q]));
                    let p = choose|p: int| 0 <= p < x.len() && x[p] == cur[q];
                    assert(x[p].target == t);
                },
                None => {},
            }
        },
    }
}

proof fn lemma_take_remains(cur: Seq<EntrySpec>, x: Seq<EntrySpec>, taken: Set<TargetSpec>, t: TargetSpec, p: int)
    requires
        remains(cur, x, taken),
        0 <= p < cur.len(),
        cur[p].target == t,
    ensures
        remains(cur.update(p, cur.last()).drop_last(), x, taken.insert(t)),
{
    let n = cur.update(p, cur.last()).drop_last();
    let last = cur.len() - 1;
    assert forall|i: int| 0 <= i < n.len() implies (#[trigger] n[i]) == (if i == p { cur[last] } else { cur[i] }) by {}
    assert forall|i: int, j: int| 0 <= i < n.len() && 0 <= j < n.len() && i != j implies n[i].target != n[j].target by {
        let ci = if i == p { last } else { i };
        let cj = if j == p { last } else { j };
        assert(n[i] == cur[ci] && n[j] == cur[cj]);
    }
    assert forall|e: EntrySpec| n.contains(e) <==> (x.contains(e) && !taken.insert(t).contains(e.target)) by {
        if n.contains(e) {
            let i = choose|i: int| 0 <= i < n.len() && n[i] == e;
            let ci = if i == p { last } else { i };
            assert(cur[ci] == e);
            assert(cur.contains(e));
            assert(ci != p);
        }
        if x.contains(e) && !taken.insert(t).contains(e.target) {
            assert(cur.contains(e));
            let c = choose|c: int| 0 <= c < cur.len() && cur[c] == e;
            assert(c != p);
            if c == last {
                assert(n[p] == e);
            } else {
                assert(n[c] == e);
            }
        }
    }
}

proof fn lemma_devices_ok_each(devs: Seq<DeviceConfigSpec>, x: Seq<EntrySpec>, op: ExternalFdOperation)
    requires
        devices_check(devs, x, op) is Ok,
    ensures
        forall|i: int|
            0 <= i < devs.len() ==> device_check((#[trigger] devs[i]).pci_common.id, devs[i].fd is Some, x, op) is Ok,
    decreases devs.len(),
{
    if devs.len() > 0 {
        lemma_devices_ok_each(devs.drop_last(), x, op);
        assert forall|i: int| 0 <= i < devs.len() implies device_check(
            (#[trigger] devs[i]).pci_common.id,
            devs[i].fd is Some,
            x,
            op,
        ) is Ok by {
            if i < devs.len() - 1 {
                assert(devs.drop_last()[i] == devs[i]);
            }
        }
    }
}

impl NetConfig {
    /// Hands the descriptors of this device's target to it, taking its entry
    /// out of `external_fds`.
    pub fn update_fds(&mut self, external_fds: &mut ExternalFds, operation: ExternalFdOperation) -> (r: Result<(), FdUpdateError>)
        ensures
            r is Ok,
            match old(self)@.pci_common.id {
                None => final(self)@ == old(self)@ && final(external_fds)@ == old(external_fds)@,
                Some(id) => match position_of(old(external_fds)@, TargetSpec::Net(id)) {
                    None => final(self)@ == old(self)@ && final(external_fds)@ == old(external_fds)@,
                    Some(p) => final(self)@ == (NetConfigSpec { fds: Some(old(external_fds)@[p].received), ..old(self)@ })
                        && final(external_fds)@ == old(external_fds)@.update(p, old(external_fds)@.last()).drop_last(),
                },
            },
    {
        let target = match &self.pci_common.id {
            None => return Ok(()),
            Some(id) => id_target_net(id),
        };
        match external_fds.take_entry(&target) {
            None => Ok(()),
            Some(mut received) => {
                self.fds = Some(received.take_fds());
                Ok(())
            },
        }
    }
}

impl DeviceConfig {
    /// Hands the last descriptor of this device's target to it, taking its
    /// entry out of `external_fds`; the device then has no path.
    pub fn update_fds(&mut self, external_fds: &mut ExternalFds, operation: ExternalFdOperation) -> (r: Result<(), FdUpdateError>)
        requires
            old(self)@.pci_common.id matches Some(id) ==> (position_of(old(external_fds)@, TargetSpec::Vfio(id)) matches Some(p)
                ==> old(external_fds)@[p].received.len() > 0),
        ensures
            r is Ok,
            match old(self)@.pci_common.id {
                None => final(self)@ == old(self)@ && final(external_fds)@ == old(external_fds)@,
                Some(id) => match position_of(old(external_fds)@, TargetSpec::Vfio(id)) {
                    None => final(self)@ == old(self)@ && final(external_fds)@ == old(external_fds)@,
                    Some(p) => final(self)@ == (DeviceConfigSpec {
                        fd: Some(old(external_fds)@[p].received.last()),
                        path: None,
                        ..old(self)@
                    }) && final(external_fds)@ == old(external_fds)@.update(p, old(external_fds)@.last()).drop_last(),
                },
            },
    {
        let target = match &self.pci_common.id {
            None => return Ok(()),
            Some(id) => id_target_vfio(id),
        };
        match external_fds.take_entry(&target) {
            None => Ok(()),
            Some(mut received) => {
                let mut fds = received.take_fds();
                let fd = fds.pop().unwrap();
                self.fd = Some(fd);
                self.path = None;
                Ok(())
            },
        }
    }
}

impl PlatformConfig {
    /// Hands the last IOMMU descriptor to the platform, taking its entry out
    /// of `external_fds`.
    pub fn update_fds(&mut self, external_fds: &mut ExternalFds, operation: ExternalFdOperation) -> (r: Result<(), FdUpdateError>)
        requires
            position_of(old(external_fds)@, TargetSpec::Iommu) matches Some(p) ==> old(external_fds)@[p].received.len() > 0,
        ensures
            r is Ok,
            match position_of(old(external_fds)@, TargetSpec::Iommu) {
                None => final(self)@ == old(self)@ && final(external_fds)@ == old(external_fds)@,
                Some(p) => final(self)@ == (PlatformConfigSpec {
                    iommufd_fd: Some(old(external_fds)@[p].received.last()),
                    ..old(self)@
                }) && final(external_fds)@ == old(external_fds)@.update(p, old(external_fds)@.last()).drop_last(),
            },
    {
        match external_fds.take_entry(&ExternalFdTarget::Iommu) {
            None => Ok(()),
            Some(mut received) => {
                let mut fds = received.take_fds();
                let fd = fds.pop().unwrap();
                self.iommufd_fd = Some(fd);
                Ok(())
            },
        }
    }
}

pub open spec fn net_seq_views(v: Seq<NetConfig>) -> Seq<NetConfigSpec> {
    Seq::new(v.len(), |i: int| v[i]@)
}

pub open spec fn device_seq_views(v: Seq<DeviceConfig>) -> Seq<DeviceConfigSpec> {
    Seq::new(v.len(), |i: int| v[i]@)
}

/// `a` and `b` agree in everything but their net devices, their VFIO devices
/// and their platform.
pub open spec fn same_others(a: &VmConfig, b: &VmConfig) -> bool {
    &&& b.cpus == a.cpus
    &&& b.memory == a.memory
    &&& b.payload == a.payload
    &&& b.rate_limit_groups == a.rate_limit_groups
    &&& b.disks == a.disks
    &&& b.rng == a.rng
    &&& b.balloon == a.balloon
    &&& b.generic_vhost_user == a.generic_vhost_user
    &&& b.fs == a.fs
    &&& b.pmem == a.pmem
    &&& b.serial == a.serial
    &&& b.console == a.console
    &&& b.debug_console == a.debug_console
    &&& b.user_devices == a.user_devices
    &&& b.vdpa == a.vdpa
    &&& b.vsock == a.vsock
    &&& b.pvmemcontrol == a.pvmemcontrol
    &&& b.pvpanic == a.pvpanic
    &&& b.iommu == a.iommu
    &&& b.numa == a.numa
    &&& b.watchdog == a.watchdog
    &&& b.rtc == a.rtc
    &&& b.pci_segments == a.pci_segments
    &&& b.tpm == a.tpm
    &&& b.preserved_fds == a.preserved_fds
    &&& b.landlock_enable == a.landlock_enable
    &&& b.landlock_rules == a.landlock_rules
    &&& b.ivshmem == a.ivshmem
}

/// `b` is `a` with the descriptors of `x` handed to its devices; nothing else
/// changed.
pub open spec fn updated(a: &VmConfig, b: &VmConfig, x: Seq<EntrySpec>) -> bool {
    let (nets, tk) = nets_apply(net_views(a.net), x);
    let (devs, _) = devices_apply(device_views(a.devices), x, tk);
    &&& (b.net is Some <==> a.net is Some)
    &&& net_views(b.net) == nets
    &&& (b.devices is Some <==> a.devices is Some)
    &&& device_views(b.devices) == devs
    &&& match a.platform {
        None => b.platform is None,
        Some(p) => b.platform matches Some(q) && q@ == platform_apply(p@, x),
    }
    &&& same_others(a, b)
}

fn update_nets(v: &mut Vec<NetConfig>, ext: &mut ExternalFds, operation: ExternalFdOperation, Ghost(x): Ghost<Seq<EntrySpec>>)
    requires
        unique_targets(x),
        remains(old(ext)@, x, Set::empty()),
    ensures
        net_seq_views(final(v)@) == nets_apply(net_seq_views(old(v)@), x).0,
        remains(final(ext)@, x, nets_apply(net_seq_views(old(v)@), x).1),
{
    let ghost orig = net_seq_views(v@);
    let mut i: usize = 0;
    assert(orig.take(0) =~= Seq::<NetConfigSpec>::empty());
    assert(net_seq_views(v@).take(0) =~= Seq::<NetConfigSpec>::empty());
    while i < v.len()
        invariant
            orig.len() == v@.len(),
            i <= v@.len(),
            unique_targets(x),
            net_seq_views(v@).take(i as int) == nets_apply(orig.take(i as int), x).0,
            forall|k: int| i <= k < v@.len() ==> (#[trigger] v@[k])@ == orig[k],
            remains(ext@, x, nets_apply(orig.take(i as int), x).1),
        decreases v@.len() - i,
    {
        let ghost pre = orig.take(i as int);
        let ghost tk = nets_apply(pre, x).1;
        let ghost cur = ext@;
        let ghost before = v@;
        assert(orig.take(i as int + 1).drop_last() =~= pre);
        assert(orig.take(i as int + 1).last() == orig[i as int]);
        proof {
            if let Some(id) = orig[i as int].pci_common.id {
                let t = TargetSpec::Net(id);
                lemma_position_of(cur, t);
                if !tk.contains(t) {
                    lemma_find_in_remains(cur, x, tk, t);
                } else {
                    if let Some(p) = position_of(cur, t) {
                        assert(cur.contains(cur[p]));
                    }
                }
            }
        }
        let _ = v[i].update_fds(ext, operation);
        proof {
            assert(v@ == before.update(i as int, v@[i as int]));
            if let Some(id) = orig[i as int].pci_common.id {
                let t = TargetSpec::Net(id);
                if let Some(p) = position_of(cur, t) {
                    lemma_take_remains(cur, x, tk, t, p);
                }
            }
            assert(net_seq_views(v@).take(i as int + 1) =~= net_seq_views(before).take(i as int).push(v@[i as int]@));
            assert forall|k: int| i + 1 <= k < v@.len() implies (#[trigger] v@[k])@ == orig[k] by {
                assert(v@[k] == before[k]);
            }
        }
        i = i + 1;
    }
    assert(orig.take(orig.len() as int) =~= orig);
    assert(net_seq_views(v@).take(v@.len() as int) =~= net_seq_views(v@));
}

/// Every device whose target has an entry finds a descriptor in it.
pub open spec fn devices_find_fds(devs: Seq<DeviceConfigSpec>, x: Seq<EntrySpec>) -> bool {
    forall|k: int|
        0 <= k < devs.len() ==> ((#[trigger] devs[k]).pci_common.id matches Some(id) ==> (find_entry(x, TargetSpec::Vfio(id))
            matches Some(e) ==> e.received.len() > 0))
}

fn update_devices(
    v: &mut Vec<DeviceConfig>,
    ext: &mut ExternalFds,
    operation: ExternalFdOperation,
    Ghost(x): Ghost<Seq<EntrySpec>>,
    Ghost(taken): Ghost<Set<TargetSpec>>,
)
    requires
        unique_targets(x),
        remains(old(ext)@, x, taken),
        devices_find_fds(device_seq_views(old(v)@), x),
    ensures
        device_seq_views(final(v)@) == devices_apply(device_seq_views(old(v)@), x, taken).0,
        remains(final(ext)@, x, devices_apply(device_seq_views(old(v)@), x, taken).1),
{
    let ghost orig = device_seq_views(v@);
    let mut i: usize = 0;
    assert(orig.take(0) =~= Seq::<DeviceConfigSpec>::empty());
    assert(device_seq_views(v@).take(0) =~= Seq::<DeviceConfigSpec>::empty());
    while i < v.len()
        invariant
            orig.len() == v@.len(),
            i <= v@.len(),
            unique_targets(x),
            devices_find_fds(orig, x),
            device_seq_views(v@).take(i as int) == devices_apply(orig.take(i as int), x, taken).0,
            forall|k: int| i <= k < v@.len() ==> (#[trigger] v@[k])@ == orig[k],
            remains(ext@, x, devices_apply(orig.take(i as int), x, taken).1),
        decreases v@.len() - i,
    {
        let ghost pre = orig.take(i as int);
        let ghost tk = devices_apply(pre, x, taken).1;
        let ghost cur = ext@;
        let ghost before = v@;
        assert(orig.take(i as int + 1).drop_last() =~= pre);
        assert(orig.take(i as int + 1).last() == orig[i as int]);
        proof {
            assert(orig[i as int] == v@[i as int]@);
            if let Some(id) = orig[i as int].pci_common.id {
                let t = TargetSpec::Vfio(id);
                lemma_position_of(cur, t);
                if !tk.contains(t) {
                    lemma_find_in_remains(cur, x, tk, t);
                } else {
                    if let Some(p) = position_of(cur, t) {
                        assert(cur.contains(cur[p]));
                    }
                }
            }
        }
        let _ = v[i].update_fds(ext, operation);
        proof {
            assert(v@ == before.update(i as int, v@[i as int]));
            if let Some(id) = orig[i as int].pci_common.id {
                let t = TargetSpec::Vfio(id);
                if let Some(p) = position_of(cur, t) {
                    lemma_take_remains(cur, x, tk, t, p);
                }
            }
            assert(device_seq_views(v@).take(i as int + 1) =~= device_seq_views(before).take(i as int).push(
                v@[i as int]@,
            ));
            assert forall|k: int| i + 1 <= k < v@.len() implies (#[trigger] v@[k])@ == orig[k] by {
                assert(v@[k] == before[k]);
            }
        }
        i = i + 1;
    }
    assert(orig.take(orig.len() as int) =~= orig);
    assert(device_seq_views(v@).take(v@.len() as int) =~= device_seq_views(v@));
}

proof fn lemma_devices_apply_taken(devs: Seq<DeviceConfigSpec>, x: Seq<EntrySpec>, taken: Set<TargetSpec>)
    ensures
        forall|t: TargetSpec| #[trigger] devices_apply(devs, x, taken).1.contains(t) ==> taken.contains(t) || t is Vfio,
    decreases devs.len(),
{
    if devs.len() > 0 {
        lemma_devices_apply_taken(devs.drop_last(), x, taken);
        let tk = devices_apply(devs.drop_last(), x, taken).1;
        let tk2 = take_device(devs.last(), x, tk).1;
        assert forall|t: TargetSpec| tk2.contains(t) implies taken.contains(t) || t is Vfio by {
            assert(devices_apply(devs.drop_last(), x, taken).1.contains(t) ==> taken.contains(t) || t is Vfio);
        }
    }
}

proof fn lemma_nets_apply_taken(nets: Seq<NetConfigSpec>, x: Seq<EntrySpec>)
    ensures
        forall|t: TargetSpec| #[trigger] nets_apply(nets, x).1.contains(t) ==> t is Net,
    decreases nets.len(),
{
    if nets.len() > 0 {
        lemma_nets_apply_taken(nets.drop_last(), x);
        let tk = nets_apply(nets.drop_last(), x).1;
        let tk2 = take_net(nets.last(), x, tk).1;
        assert forall|t: TargetSpec| tk2.contains(t) implies t is Net by {
            assert(nets_apply(nets.drop_last(), x).1.contains(t) ==> t is Net);
        }
    }
}

impl VmConfig {
    /// Checks `external_fds` against the configuration and, when it fits,
    /// hands the descriptors to the net devices, the VFIO devices and the
    /// platform, in that order; a refused check changes nothing.
    pub fn update_fds(&mut self, external_fds: ExternalFds, operation: ExternalFdOperation) -> (r: Result<(), FdUpdateError>)
        ensures
            match config_verdict(old(self), external_fds@, operation) {
                Err(v) => r matches Err(e) && reports(e@, v) && *final(self) == *old(self),
                Ok(()) => r is Ok && updated(old(self), final(self), external_fds@),
            },
    {
        if let Err(e) = self.validate_fds(&external_fds, operation) {
            return Err(e);
        }
        let ghost x = external_fds@;
        let ghost old_self = *self;
        proof {
            lemma_unique_of_no_duplicate(x);
            assert forall|e: EntrySpec| x.contains(e) <==> (x.contains(e) && !Set::<TargetSpec>::empty().contains(e.target)) by {}
            let nets = net_views(self.net);
            let devs = device_views(self.devices);
            let r1 = nets_check(nets, x)->Ok_0;
            lemma_devices_ok_each(devs, x, operation);
            assert forall|k: int| 0 <= k < devs.len() implies ((#[trigger] devs[k]).pci_common.id matches Some(id)
                ==> (find_entry(x, TargetSpec::Vfio(id)) matches Some(e) ==> e.received.len() > 0)) by {
                assert(device_check(devs[k].pci_common.id, devs[k].fd is Some, x, operation) is Ok);
            }
        }
        let mut ext = external_fds;
        let mut nets_opt: Option<Vec<NetConfig>> = None;
        std::mem::swap(&mut nets_opt, &mut self.net);
        let nets_opt = match nets_opt {
            Some(mut v) => {
                assert(net_seq_views(v@) == net_views(old_self.net));
                update_nets(&mut v, &mut ext, operation, Ghost(x));
                Some(v)
            },
            None => {
                assert(net_views(old_self.net) =~= Seq::<NetConfigSpec>::empty());
                assert(ext@ == x);
                None
            },
        };
        self.net = nets_opt;
        let ghost tk = nets_apply(net_views(old_self.net), x).1;
        assert(remains(ext@, x, tk));
        let mut devs_opt: Option<Vec<DeviceConfig>> = None;
        std::mem::swap(&mut devs_opt, &mut self.devices);
        let devs_opt = match devs_opt {
            Some(mut v) => {
                assert(device_seq_views(v@) == device_views(old_self.devices));
                update_devices(&mut v, &mut ext, operation, Ghost(x), Ghost(tk));
                Some(v)
            },
            None => {
                assert(device_views(old_self.devices) =~= Seq::<DeviceConfigSpec>::empty());
                None
            },
        };
        self.devices = devs_opt;
        let ghost tk2 = devices_apply(device_views(old_self.devices), x, tk).1;
        assert(remains(ext@, x, tk2));
        let mut plat_opt: Option<PlatformConfig> = None;
        std::mem::swap(&mut plat_opt, &mut self.platform);
        let plat_opt = match plat_opt {
            Some(mut p) => {
                proof {
                    lemma_devices_apply_taken(device_views(old_self.devices), x, tk);
                    lemma_nets_apply_taken(net_views(old_self.net), x);
                    assert(!tk.contains(TargetSpec::Iommu));
                    assert(!tk2.contains(TargetSpec::Iommu));
                    lemma_find_in_remains(ext@, x, tk2, TargetSpec::Iommu);
                    lemma_position_of(ext@, TargetSpec::Iommu);
                }
                let _ = p.update_fds(&mut ext, operation);
                Some(p)
            },
            None => None,
        };
        self.platform = plat_opt;
        Ok(())
    }
}

impl NetConfig {
    /// Takes the descriptors of an `SCM_RIGHTS` message as its own; none
    /// leaves the device without descriptors.
    pub fn ingest_scm_rights(&mut self, files: Vec<i32>) -> (r: Result<(), IngestScmRightsError>)
        ensures
            r is Ok,
            final(self)@ == (NetConfigSpec { fds: if files@.len() == 0 {
                None
            } else {
                Some(files@)
            }, ..old(self)@ }),
    {
        if files.len() == 0 {
            self.fds = None;
        } else {
            self.fds = Some(files);
        }
        Ok(())
    }
}

impl DeviceConfig {
    /// Takes the descriptor of an `SCM_RIGHTS` message as its own; more than
    /// one is refused.
    pub fn ingest_scm_rights(&mut self, files: Vec<i32>) -> (r: Result<(), IngestScmRightsError>)
        ensures
            files@.len() > 1 ==> r == Err::<(), IngestScmRightsError>(IngestScmRightsError::TooManyFds)
                && final(self)@ == old(self)@,
            files@.len() <= 1 ==> r is Ok && final(self)@ == (DeviceConfigSpec { fd: if files@.len() == 0 {
                None
            } else {
                Some(files@[0])
            }, ..old(self)@ }),
    {
        if files.len() > 1 {
            Err(IngestScmRightsError::TooManyFds)
        } else {
            self.fd = if files.len() == 0 {
                None
            } else {
                Some(files[0])
            };
            Ok(())
        }
    }
}

impl VmConfig {
    /// A configuration takes no descriptors of its own from an `SCM_RIGHTS`
    /// message.
    pub fn ingest_scm_rights(&mut self, files: Vec<i32>) -> (r: Result<(), IngestScmRightsError>)
        ensures
            r is Ok,
            *final(self) == *old(self),
    {
        Ok(())
    }
}

// ---------------------------------------------------------------------------
// What an accepted set of descriptors means
// ---------------------------------------------------------------------------

/// Entry `e` is claimed by the configuration: a net target by a net device
/// with its id and as many descriptors; a VFIO target, with one descriptor,
/// by a VFIO device with its id (which, when a VM is created, has a
/// descriptor); the IOMMU target, with one descriptor, by a platform that
/// uses iommufd.
pub open spec fn fd_claimed(
    nets: Seq<NetConfigSpec>,
    devs: Seq<DeviceConfigSpec>,
    plat: Option<bool>,
    op: ExternalFdOperation,
    e: EntrySpec,
) -> bool {
    match e.target {
        TargetSpec::Net(id) => exists|j: int|
            0 <= j < nets.len() && (#[trigger] nets[j]).pci_common.id == Some(id) && nets[j].fds is Some
                && nets[j].fds->Some_0.len() == e.received.len(),
        TargetSpec::Vfio(id) => e.received.len() == 1 && exists|j: int|
            0 <= j < devs.len() && (#[trigger] devs[j]).pci_common.id == Some(id)
                && (op == ExternalFdOperation::VmCreate ==> devs[j].fd is Some),
        TargetSpec::Iommu => plat == Some(true) && e.received.len() == 1,
    }
}

proof fn lemma_nets_check_claims(nets: Seq<NetConfigSpec>, x: Seq<EntrySpec>)
    requires
        nets_check(nets, x) is Ok,
    ensures
        forall|t: TargetSpec| #[trigger] nets_check(nets, x)->Ok_0.contains(t) ==> exists|j: int|
            0 <= j < nets.len() && net_check((#[trigger] nets[j]).pci_common.id, nets[j].fds, x)
                == Ok::<Option<TargetSpec>, FdErr>(Some(t)),
    decreases nets.len(),
{
    if nets.len() > 0 {
        let d = nets.drop_last();
        lemma_nets_check_claims(d, x);
        let last = nets.len() - 1;
        assert(nets.last() == nets[last]);
        assert forall|t: TargetSpec| #[trigger] nets_check(nets, x)->Ok_0.contains(t) implies exists|j: int|
            0 <= j < nets.len() && net_check((#[trigger] nets[j]).pci_common.id, nets[j].fds, x)
                == Ok::<Option<TargetSpec>, FdErr>(Some(t)) by {
            if nets_check(d, x)->Ok_0.contains(t) {
                let j = choose|j: int| 0 <= j < d.len() && net_check((#[trigger] d[j]).pci_common.id, d[j].fds, x)
                    == Ok::<Option<TargetSpec>, FdErr>(Some(t));
                assert(d[j] == nets[j]);
            } else {
                assert(net_check(nets[last].pci_common.id, nets[last].fds, x) == Ok::<Option<TargetSpec>, FdErr>(Some(t)));
            }
        }
    }
}

proof fn lemma_devices_check_claims(devs: Seq<DeviceConfigSpec>, x: Seq<EntrySpec>, op: ExternalFdOperation)
    requires
        devices_check(devs, x, op) is Ok,
    ensures
        forall|t: TargetSpec| #[trigger] devices_check(devs, x, op)->Ok_0.contains(t) ==> exists|j: int|
            0 <= j < devs.len() && device_check((#[trigger] devs[j]).pci_common.id, devs[j].fd is Some, x, op)
                == Ok::<Option<TargetSpec>, FdErr>(Some(t)),
    decreases devs.len(),
{
    if devs.len() > 0 {
        let d = devs.drop_last();
        lemma_devices_check_claims(d, x, op);
        let last = devs.len() - 1;
        assert(devs.last() == devs[last]);
        assert forall|t: TargetSpec| #[trigger] devices_check(devs, x, op)->Ok_0.contains(t) implies exists|j: int|
            0 <= j < devs.len() && device_check((#[trigger] devs[j]).pci_common.id, devs[j].fd is Some, x, op)
                == Ok::<Option<TargetSpec>, FdErr>(Some(t)) by {
            if devices_check(d, x, op)->Ok_0.contains(t) {
                let j = choose|j: int| 0 <= j < d.len() && device_check((#[trigger] d[j]).pci_common.id, d[j].fd is Some, x, op)
                    == Ok::<Option<TargetSpec>, FdErr>(Some(t));
                assert(d[j] == devs[j]);
            } else {
                assert(device_check(devs[last].pci_common.id, devs[last].fd is Some, x, op)
                    == Ok::<Option<TargetSpec>, FdErr>(Some(t)));
            }
        }
    }
}

proof fn lemma_unique_find(x: Seq<EntrySpec>, i: int)
    requires
        unique_targets(x),
        0 <= i < x.len(),
    ensures
        find_entry(x, x[i].target) == Some(x[i]),
{
    lemma_position_of(x, x[i].target);
}

proof fn lemma_first_duplicate_repeats(ts: Seq<TargetSpec>)
    ensures
        first_duplicate(ts) matches Some(t) ==> exists|i: int, j: int|
            0 <= i < j < ts.len() && #[trigger] ts[i] == t && #[trigger] ts[j] == t,
    decreases ts.len(),
{
    if ts.len() > 0 {
        let d = ts.drop_last();
        lemma_first_duplicate_repeats(d);
        if let Some(t) = first_duplicate(ts) {
            if first_duplicate(d) is Some {
                let (i, j) = choose|i: int, j: int| 0 <= i < j < d.len() && #[trigger] d[i] == t && #[trigger] d[j] == t;
                assert(ts[i] == t && ts[j] == t);
            } else {
                let i = choose|i: int| 0 <= i < d.len() && d[i] == ts.last();
                assert(ts[i] == t && ts[ts.len() - 1] == t);
            }
        }
    }
}

/// Descriptors that name a target twice are refused with
/// `DuplicatedTargetEntry` for a target that two entries name.
pub proof fn lemma_fd_verdict_duplicate(
    nets: Seq<NetConfigSpec>,
    devs: Seq<DeviceConfigSpec>,
    plat: Option<bool>,
    x: Seq<EntrySpec>,
    op: ExternalFdOperation,
)
    requires
        !unique_targets(x),
    ensures
        fd_verdict(nets, devs, plat, x, op) matches Err(FdErr::DuplicatedTargetEntry(t)) && exists|i: int, j: int|
            0 <= i < j < x.len() && #[trigger] x[i].target == t && #[trigger] x[j].target == t,
{
    if first_duplicate(entry_targets(x)) is None {
        lemma_unique_of_no_duplicate(x);
    }
    let ts = entry_targets(x);
    lemma_first_duplicate_repeats(ts);
    let t = first_duplicate(ts)->Some_0;
    let (i, j) = choose|i: int, j: int| 0 <= i < j < ts.len() && #[trigger] ts[i] == t && #[trigger] ts[j] == t;
    assert(x[i].target == t && x[j].target == t);
}

/// Descriptors that pass the check name no target twice, come with VFIO
/// targets exactly when they come with the IOMMU target, and are each
/// claimed by the configuration (see [`fd_claimed`]).
pub proof fn lemma_fd_verdict_accepted(
    nets: Seq<NetConfigSpec>,
    devs: Seq<DeviceConfigSpec>,
    plat: Option<bool>,
    x: Seq<EntrySpec>,
    op: ExternalFdOperation,
)
    requires
        fd_verdict(nets, devs, plat, x, op) is Ok,
    ensures
        unique_targets(x),
        (exists|i: int| 0 <= i < x.len() && (#[trigger] x[i]).target is Vfio) <==> (exists|i: int|
            0 <= i < x.len() && (#[trigger] x[i]).target == TargetSpec::Iommu),
        forall|i: int| 0 <= i < x.len() ==> fd_claimed(nets, devs, plat, op, #[trigger] x[i]),
{
    lemma_unique_of_no_duplicate(x);
    let ts = entry_targets(x);
    let all = ts.to_set();
    let r1 = nets_check(nets, x)->Ok_0;
    let r2 = devices_check(devs, x, op)->Ok_0;
    let r3 = match plat {
        Some(iommufd) => platform_check(iommufd, x),
        None => Ok(None),
    }->Ok_0;
    let remaining = all.difference(r1).difference(r2).difference(with_target(Set::empty(), r3));
    assert(remaining == Set::<TargetSpec>::empty());
    if exists|i: int| 0 <= i < x.len() && (#[trigger] x[i]).target is Vfio {
        let i = choose|i: int| 0 <= i < x.len() && (#[trigger] x[i]).target is Vfio;
        assert(ts[i] == x[i].target);
        assert(all.contains(x[i].target));
        assert(all.contains(TargetSpec::Iommu));
        assert(ts.contains(TargetSpec::Iommu));
        let k = choose|k: int| 0 <= k < ts.len() && ts[k] == TargetSpec::Iommu;
        assert(x[k].target == TargetSpec::Iommu);
    }
    if exists|i: int| 0 <= i < x.len() && (#[trigger] x[i]).target == TargetSpec::Iommu {
        let i = choose|i: int| 0 <= i < x.len() && (#[trigger] x[i]).target == TargetSpec::Iommu;
        assert(ts[i] == x[i].target);
        assert(all.contains(TargetSpec::Iommu));
        let t = choose|t: TargetSpec| all.contains(t) && t is Vfio;
        assert(ts.contains(t));
        let k = choose|k: int| 0 <= k < ts.len() && ts[k] == t;
        assert(x[k].target is Vfio);
    }
    lemma_nets_check_claims(nets, x);
    lemma_devices_check_claims(devs, x, op);
    assert forall|i: int| 0 <= i < x.len() implies fd_claimed(nets, devs, plat, op, #[trigger] x[i]) by {
        let t = x[i].target;
        assert(ts[i] == t);
        assert(all.contains(t));
        assert(!remaining.contains(t));
        lemma_unique_find(x, i);
        if r1.contains(t) {
            let j = choose|j: int| 0 <= j < nets.len() && net_check((#[trigger] nets[j]).pci_common.id, nets[j].fds, x)
                == Ok::<Option<TargetSpec>, FdErr>(Some(t));
            assert(nets[j].pci_common.id is Some);
        } else if r2.contains(t) {
            let j = choose|j: int| 0 <= j < devs.len() && device_check((#[trigger] devs[j]).pci_common.id, devs[j].fd is Some, x, op)
                == Ok::<Option<TargetSpec>, FdErr>(Some(t));
            assert(devs[j].pci_common.id is Some);
        } else {
            assert(with_target(Set::empty(), r3).contains(t));
            assert(r3 == Some(t));
        }
    }
}

/// Net device `j` after an update: the first net device with an id takes
/// the descriptors of the entry for that id, where there is one; every other
/// net device stays as it was.
pub open spec fn handed_net(nets: Seq<NetConfigSpec>, x: Seq<EntrySpec>, j: int) -> NetConfigSpec {
    match nets[j].pci_common.id {
        Some(id) => if find_entry(x, TargetSpec::Net(id)) is Some && forall|k: int|
            0 <= k < j ==> (#[trigger] nets[k]).pci_common.id != Some(id) {
            NetConfigSpec { fds: Some(find_entry(x, TargetSpec::Net(id))->Some_0.received), ..nets[j] }
        } else {
            nets[j]
        },
        None => nets[j],
    }
}

/// VFIO device `j` after an update: the first VFIO device with an id takes
/// the (last) descriptor of the entry for that id, where there is one, and
/// drops its path; every other VFIO device stays as it was.
pub open spec fn handed_device(devs: Seq<DeviceConfigSpec>, x: Seq<EntrySpec>, j: int) -> DeviceConfigSpec {
    match devs[j].pci_common.id {
        Some(id) => if find_entry(x, TargetSpec::Vfio(id)) is Some && forall|k: int|
            0 <= k < j ==> (#[trigger] devs[k]).pci_common.id != Some(id) {
            DeviceConfigSpec {
                fd: Some(find_entry(x, TargetSpec::Vfio(id))->Some_0.received.last()),
                path: None,
                ..devs[j]
            }
        } else {
            devs[j]
        },
        None => devs[j],
    }
}

proof fn lemma_nets_apply_each(nets: Seq<NetConfigSpec>, x: Seq<EntrySpec>)
    ensures
        nets_apply(nets, x).0.len() == nets.len(),
        forall|j: int| 0 <= j < nets.len() ==> #[trigger] nets_apply(nets, x).0[j] == handed_net(nets, x, j),
        forall|t: TargetSpec| #[trigger] nets_apply(nets, x).1.contains(t) <==> (t is Net && find_entry(x, t) is Some
            && exists|k: int| 0 <= k < nets.len() && (#[trigger] nets[k]).pci_common.id == Some(t->Net_0)),
    decreases nets.len(),
{
    if nets.len() > 0 {
        let d = nets.drop_last();
        let n = nets.len() - 1;
        lemma_nets_apply_each(d, x);
        let (a, tk) = nets_apply(d, x);
        let (b, tk2) = take_net(nets.last(), x, tk);
        assert(nets.last() == nets[n]);
        assert forall|k: int| 0 <= k < n implies #[trigger] d[k] == nets[k] by {}
        assert forall|j: int| 0 <= j < nets.len() implies #[trigger] nets_apply(nets, x).0[j] == handed_net(nets, x, j) by {
            if j < n {
                assert(a[j] == handed_net(d, x, j));
                match nets[j].pci_common.id {
                    Some(id) => {
                        if forall|k: int| 0 <= k < j ==> (#[trigger] d[k]).pci_common.id != Some(id) {
                            assert forall|k: int| 0 <= k < j implies (#[trigger] nets[k]).pci_common.id != Some(id) by {
                                assert(d[k] == nets[k]);
                            }
                        }
                        if forall|k: int| 0 <= k < j ==> (#[trigger] nets[k]).pci_common.id != Some(id) {
                            assert forall|k: int| 0 <= k < j implies (#[trigger] d[k]).pci_common.id != Some(id) by {
                                assert(d[k] == nets[k]);
                            }
                        }
                    },
                    None => {},
                }
            } else {
                match nets[n].pci_common.id {
                    Some(id) => {
                        let t = TargetSpec::Net(id);
                        if exists|k: int| 0 <= k < n && (#[trigger] nets[k]).pci_common.id == Some(id) {
                            let k = choose|k: int| 0 <= k < n && (#[trigger] nets[k]).pci_common.id == Some(id);
                            if find_entry(x, t) is Some {
                                assert(d[k].pci_common.id == Some(t->Net_0));
                                assert(tk.contains(t));
                            }
                        } else {
                            assert(!tk.contains(t)) by {
                                if tk.contains(t) {
                                    let k = choose|k: int| 0 <= k < d.len() && (#[trigger] d[k]).pci_common.id == Some(t->Net_0);
                                    assert(nets[k].pci_common.id == Some(id));
                                }
                            }
                        }
                    },
                    None => {},
                }
            }
        }
        assert forall|t: TargetSpec| #[trigger] nets_apply(nets, x).1.contains(t) <==> (t is Net && find_entry(x, t) is Some
            && exists|k: int| 0 <= k < nets.len() && (#[trigger] nets[k]).pci_common.id == Some(t->Net_0)) by {
            if t is Net && find_entry(x, t) is Some && exists|k: int| 0 <= k < nets.len() && (#[trigger] nets[k]).pci_common.id == Some(t->Net_0) {
                let k = choose|k: int| 0 <= k < nets.len() && (#[trigger] nets[k]).pci_common.id == Some(t->Net_0);
                if k < n {
                    assert(d[k].pci_common.id == Some(t->Net_0));
                }
            }
            if tk.contains(t) {
                let k = choose|k: int| 0 <= k < d.len() && (#[trigger] d[k]).pci_common.id == Some(t->Net_0);
                assert(nets[k].pci_common.id == Some(t->Net_0));
            }
        }
    }
}

proof fn lemma_devices_apply_each(devs: Seq<DeviceConfigSpec>, x: Seq<EntrySpec>, taken: Set<TargetSpec>)
    requires
        forall|t: TargetSpec| #[trigger] taken.contains(t) ==> !(t is Vfio),
    ensures
        devices_apply(devs, x, taken).0.len() == devs.len(),
        forall|j: int| 0 <= j < devs.len() ==> #[trigger] devices_apply(devs, x, taken).0[j] == handed_device(devs, x, j),
        forall|t: TargetSpec| #[trigger] devices_apply(devs, x, taken).1.contains(t) <==> (taken.contains(t) || (t is Vfio
            && find_entry(x, t) is Some && exists|k: int| 0 <= k < devs.len() && (#[trigger] devs[k]).pci_common.id == Some(t->Vfio_0))),
    decreases devs.len(),
{
    if devs.len() > 0 {
        let d = devs.drop_last();
        let n = devs.len() - 1;
        lemma_devices_apply_each(d, x, taken);
        let (a, tk) = devices_apply(d, x, taken);
        let (b, tk2) = take_device(devs.last(), x, tk);
        assert(devs.last() == devs[n]);
        assert forall|k: int| 0 <= k < n implies #[trigger] d[k] == devs[k] by {}
        assert forall|j: int| 0 <= j < devs.len() implies #[trigger] devices_apply(devs, x, taken).0[j] == handed_device(devs, x, j) by {
            if j < n {
                assert(a[j] == handed_device(d, x, j));
                match devs[j].pci_common.id {
                    Some(id) => {
                        if forall|k: int| 0 <= k < j ==> (#[trigger] d[k]).pci_common.id != Some(id) {
                            assert forall|k: int| 0 <= k < j implies (#[trigger] devs[k]).pci_common.id != Some(id) by {
                                assert(d[k] == devs[k]);
                            }
                        }
                        if forall|k: int| 0 <= k < j ==> (#[trigger] devs[k]).pci_common.id != Some(id) {
                            assert forall|k: int| 0 <= k < j implies (#[trigger] d[k]).pci_common.id != Some(id) by {
                                assert(d[k] == devs[k]);
                            }
                        }
                    },
                    None => {},
                }
            } else {
                match devs[n].pci_common.id {
                    Some(id) => {
                        let t = TargetSpec::Vfio(id);
                        if exists|k: int| 0 <= k < n && (#[trigger] devs[k]).pci_common.id == Some(id) {
                            let k = choose|k: int| 0 <= k < n && (#[trigger] devs[k]).pci_common.id == Some(id);
                            if find_entry(x, t) is Some {
                                assert(d[k].pci_common.id == Some(t->Vfio_0));
                                assert(tk.contains(t));
                            }
                        } else {
                            assert(!tk.contains(t)) by {
                                if tk.contains(t) {
                                    assert(!taken.contains(t));
                                    let k = choose|k: int| 0 <= k < d.len() && (#[trigger] d[k]).pci_common.id == Some(t->Vfio_0);
                                    assert(devs[k].pci_common.id == Some(id));
                                }
                            }
                        }
                    },
                    None => {},
                }
            }
        }
        assert forall|t: TargetSpec| #[trigger] devices_apply(devs, x, taken).1.contains(t) <==> (taken.contains(t) || (t is Vfio
            && find_entry(x, t) is Some && exists|k: int| 0 <= k < devs.len() && (#[trigger] devs[k]).pci_common.id == Some(t->Vfio_0))) by {
            if t is Vfio && find_entry(x, t) is Some && exists|k: int| 0 <= k < devs.len() && (#[trigger] devs[k]).pci_common.id == Some(t->Vfio_0) {
                let k = choose|k: int| 0 <= k < devs.len() && (#[trigger] devs[k]).pci_common.id == Some(t->Vfio_0);
                if k < n {
                    assert(d[k].pci_common.id == Some(t->Vfio_0));
                }
            }
            if tk.contains(t) && !taken.contains(t) {
                let k = choose|k: int| 0 <= k < d.len() && (#[trigger] d[k]).pci_common.id == Some(t->Vfio_0);
                assert(devs[k].pci_common.id == Some(t->Vfio_0));
            }
        }
    }
}

/// After an update the configuration has the same devices in the same
/// order: each net device is [`handed_net`], each VFIO device is
/// [`handed_device`], the platform takes the last IOMMU descriptor, and
/// nothing else changes.
pub proof fn lemma_update_hands_out(a: &VmConfig, b: &VmConfig, x: Seq<EntrySpec>)
    requires
        updated(a, b, x),
    ensures
        net_views(b.net).len() == net_views(a.net).len(),
        forall|j: int| 0 <= j < net_views(a.net).len() ==> #[trigger] net_views(b.net)[j] == handed_net(net_views(a.net), x, j),
        device_views(b.devices).len() == device_views(a.devices).len(),
        forall|j: int| 0 <= j < device_views(a.devices).len() ==> #[trigger] device_views(b.devices)[j] == handed_device(
            device_views(a.devices),
            x,
            j,
        ),
        match a.platform {
            None => b.platform is None,
            Some(p) => b.platform matches Some(q) && q@ == platform_apply(p@, x),
        },
        same_others(a, b),
{
    let nets = net_views(a.net);
    lemma_nets_apply_each(nets, x);
    let tk = nets_apply(nets, x).1;
    assert forall|t: TargetSpec| #[trigger] tk.contains(t) implies !(t is Vfio) by {}
    lemma_devices_apply_each(device_views(a.devices), x, tk);
}

proof fn lemma_sorted_unique(l1: Seq<TargetSpec>, l2: Seq<TargetSpec>)
    requires
        sorted(l1),
        sorted(l2),
        l1.to_set() == l2.to_set(),
    ensures
        l1 == l2,
    decreases l1.len(),
{
    lemma_seq_empty_set(l1);
    lemma_seq_empty_set(l2);
    if l1.len() == 0 {
        assert(l1 =~= l2);
    } else {
        let a = l1[0];
        let b = l2[0];
        assert(l1.to_set().contains(a));
        assert(l2.to_set().contains(b));
        assert(l2.contains(a));
        assert(l1.contains(b));
        let k = choose|k: int| 0 <= k < l2.len() && l2[k] == a;
        let m = choose|m: int| 0 <= m < l1.len() && l1[m] == b;
        if k > 0 && m > 0 {
            assert(target_lt(b, a));
            assert(target_lt(a, b));
            lemma_target_lt_transitive(a, b, a);
            lemma_target_lt_irreflexive(a);
        } else if k > 0 {
            assert(target_lt(b, a));
            lemma_target_lt_irreflexive(a);
        }
        assert(a == b);
        let d1 = l1.drop_first();
        let d2 = l2.drop_first();
        assert forall|i: int, j: int| 0 <= i < j < d1.len() implies target_lt(d1[i], d1[j]) by {
            assert(d1[i] == l1[i + 1] && d1[j] == l1[j + 1]);
        }
        assert forall|i: int, j: int| 0 <= i < j < d2.len() implies target_lt(d2[i], d2[j]) by {
            assert(d2[i] == l2[i + 1] && d2[j] == l2[j + 1]);
        }
        assert forall|t: TargetSpec| d1.to_set().contains(t) <==> d2.to_set().contains(t) by {
            if d1.contains(t) {
                let i = choose|i: int| 0 <= i < d1.len() && d1[i] == t;
                assert(l1[i + 1] == t);
                assert(target_lt(a, t));
                assert(l1.to_set().contains(t));
                assert(l2.contains(t));
                let j = choose|j: int| 0 <= j < l2.len() && l2[j] == t;
                if j == 0 {
                    lemma_target_lt_irreflexive(a);
                }
                assert(d2[j - 1] == t);
            }
            if d2.contains(t) {
                let i = choose|i: int| 0 <= i < d2.len() && d2[i] == t;
                assert(l2[i + 1] == t);
                assert(target_lt(b, t));
                assert(l2.to_set().contains(t));
                assert(l1.contains(t));
                let j = choose|j: int| 0 <= j < l1.len() && l1[j] == t;
                if j == 0 {
                    lemma_target_lt_irreflexive(a);
                }
                assert(d1[j - 1] == t);
            }
        }
        assert(d1.to_set() =~= d2.to_set());
        lemma_sorted_unique(d1, d2);
        assert(l1 =~= l2) by {
            assert forall|i: int| 0 <= i < l1.len() implies l1[i] == l2[i] by {
                if i > 0 {
                    assert(l1[i] == d1[i - 1] && l2[i] == d2[i - 1]);
                }
            }
        }
    }
}

/// Two errors that report the same verdict are the same error; so a
/// refused update reports exactly what the check alone reports.
pub proof fn lemma_reports_unique(e1: FdErr, e2: FdErr, v: FdErr)
    requires
        reports(e1, v),
        reports(e2, v),
    ensures
        e1 == e2,
{
    if let FdErr::Unused(_) = v {
        if let (FdErr::SuperfluousFds(l1), FdErr::SuperfluousFds(l2)) = (e1, e2) {
            lemma_sorted_unique(l1, l2);
        }
    }
}

} // verus!
