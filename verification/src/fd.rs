//! The file descriptors of the devices of a VM, by device.
use vstd::prelude::*;

use crate::fd_device::{FdDevice, FdDeviceSpec, SerializableFd};
use crate::fd_map::{copy_device, flatten, fd_raw, lookup, pairs_view, same_shape};
use crate::fd_update::{net_seq_views, same_others};
use crate::text::{chars_eq, chars_of, concat_str, string_from};
use crate::vm_config::net::{NetConfig, NetConfigSpec};
use crate::vm_config::vm::VmConfig;

verus! {

/// Why descriptors cannot be applied to a configuration.
#[derive(Debug, PartialEq, Eq)]
pub enum FdApplyError {
    Todo(String),
}

impl View for FdApplyError {
    type V = Seq<char>;

    /// The message of the error.
    open spec fn view(&self) -> Seq<char> {
        match self {
            FdApplyError::Todo(m) => m@,
        }
    }
}

/// The first net device whose id is `id`.
pub open spec fn find_net(ns: Seq<NetConfigSpec>, id: Seq<char>) -> Option<int>
    decreases ns.len(),
{
    if ns.len() == 0 {
        None
    } else {
        match find_net(ns.drop_last(), id) {
            Some(i) => Some(i),
            None => if ns.last().pci_common.id == Some(id) {
                Some(ns.len() - 1)
            } else {
                None
            },
        }
    }
}

pub open spec fn nets_opt_view(o: Option<Vec<NetConfig>>) -> Option<Seq<NetConfigSpec>> {
    match o {
        Some(v) => Some(net_seq_views(v@)),
        None => None,
    }
}

/// Where `count` descriptors for the net device `id` go among the net
/// devices `ns`: the index of the device, or why they cannot go there.
pub open spec fn net_fd_check(ns: Option<Seq<NetConfigSpec>>, id: Seq<char>, count: nat) -> Result<int, Seq<char>> {
    match ns {
        None => Err("VM config is missing net devices"@),
        Some(s) => match find_net(s, id) {
            None => Err("could not find net device with id "@ + id),
            Some(i) => match s[i].fds {
                None => Err("cannot restore FDs for "@ + id + ", device does not use FDs"@),
                Some(f) => if f.len() != count {
                    Err("FD count mismatch between config and device"@)
                } else {
                    Ok(i)
                },
            },
        },
    }
}

/// Where the descriptors of one device of the map go.
pub open spec fn entry_check(ns: Option<Seq<NetConfigSpec>>, e: (FdDeviceSpec, Seq<SerializableFd>)) -> Result<int, Seq<char>> {
    match e.0 {
        FdDeviceSpec::Net(id) => net_fd_check(ns, id, e.1.len()),
    }
}

/// Whether the descriptors of every device of `es` fit the net devices
/// `ns`; the complaint about the first that does not.
pub open spec fn validate_verdict(ns: Option<Seq<NetConfigSpec>>, es: Seq<(FdDeviceSpec, Seq<SerializableFd>)>) -> Result<(), Seq<char>>
    decreases es.len(),
{
    if es.len() == 0 {
        Ok(())
    } else {
        match validate_verdict(ns, es.drop_last()) {
            Err(m) => Err(m),
            Ok(()) => match entry_check(ns, es.last()) {
                Err(m) => Err(m),
                Ok(_) => Ok(()),
            },
        }
    }
}

/// The numbers of the descriptors.
pub open spec fn raw_fds(fds: Seq<SerializableFd>) -> Seq<i32> {
    fds.map_values(|f: SerializableFd| fd_raw(f))
}

/// The net device `n` with the descriptors `fds` in place of its own.
pub open spec fn with_fds(n: NetConfigSpec, fds: Seq<i32>) -> NetConfigSpec {
    NetConfigSpec { fds: Some(fds), ..n }
}

/// The net devices `ns` once the devices of `es` have handed over their
/// descriptors, one after the other, and the complaint that stopped it, if
/// any: the devices handled before the complaint keep their new descriptors.
pub open spec fn apply_nets(ns: Option<Seq<NetConfigSpec>>, es: Seq<(FdDeviceSpec, Seq<SerializableFd>)>) -> (Option<Seq<NetConfigSpec>>, Option<Seq<char>>)
    decreases es.len(),
{
    if es.len() == 0 {
        (ns, None)
    } else {
        let (ns1, e1) = apply_nets(ns, es.drop_last());
        match e1 {
            Some(m) => (ns1, Some(m)),
            None => match entry_check(ns1, es.last()) {
                Err(m) => (ns1, Some(m)),
                Ok(i) => (Some(ns1->0.update(i, with_fds(ns1->0[i], raw_fds(es.last().1)))), None),
            },
        }
    }
}

/// `b` is `a` with the net devices `ns`; nothing else changed.
pub open spec fn nets_replaced(a: &VmConfig, b: &VmConfig, ns: Option<Seq<NetConfigSpec>>) -> bool {
    &&& nets_opt_view(b.net) == ns
    &&& b.devices == a.devices
    &&& b.platform == a.platform
    &&& same_others(a, b)
}

proof fn lemma_find_net_extend(s: Seq<NetConfigSpec>, id: Seq<char>, k: int)
    requires
        0 <= k <= s.len(),
        find_net(s.take(k), id) is Some,
    ensures
        find_net(s, id) == find_net(s.take(k), id),
    decreases s.len() - k,
{
    if k < s.len() {
        assert(s.take(k + 1).drop_last() =~= s.take(k));
        lemma_find_net_extend(s, id, k + 1);
    } else {
        assert(s.take(k) =~= s);
    }
}

proof fn lemma_find_net_bound(s: Seq<NetConfigSpec>, id: Seq<char>)
    ensures
        find_net(s, id) matches Some(i) ==> 0 <= i < s.len() && s[i].pci_common.id == Some(id),
    decreases s.len(),
{
    if s.len() > 0 {
        lemma_find_net_bound(s.drop_last(), id);
    }
}

fn str_eq(a: &String, b: &String) -> (r: bool)
    ensures
        r == (a@ == b@),
{
    let x = chars_of(a.as_str());
    let y = chars_of(b.as_str());
    chars_eq(&x, &y)
}

/// The index of the first net device whose id is `id`.
fn find_net_index(nets: &Vec<NetConfig>, id: &String) -> (r: Option<usize>)
    ensures
        match r {
            Some(k) => find_net(net_seq_views(nets@), id@) == Some(k as int),
            None => find_net(net_seq_views(nets@), id@) is None,
        },
{
    let ghost ns = net_seq_views(nets@);
    let mut i: usize = 0;
    assert(ns.take(0) =~= Seq::<NetConfigSpec>::empty());
    while i < nets.len()
        invariant
            i <= nets@.len(),
            ns == net_seq_views(nets@),
            find_net(ns.take(i as int), id@) is None,
        decreases nets@.len() - i,
    {
        let hit = match &nets[i].pci_common.id {
            Some(x) => str_eq(x, id),
            None => false,
        };
        proof {
            assert(ns.take(i + 1).drop_last() =~= ns.take(i as int));
            assert(ns.take(i + 1).last() == nets@[i as int]@);
        }
        if hit {
            proof {
                lemma_find_net_extend(ns, id@, i + 1);
            }
            return Some(i);
        }
        i = i + 1;
    }
    assert(ns.take(ns.len() as int) =~= ns);
    None
}

/// Where `count` descriptors for the net device `id` go among `nets`.
fn check_net(nets: &Option<Vec<NetConfig>>, id: &String, count: usize) -> (r: Result<usize, FdApplyError>)
    ensures
        match (r, net_fd_check(nets_opt_view(*nets), id@, count as nat)) {
            (Ok(i), Ok(j)) => i == j,
            (Err(e), Err(m)) => e@ == m,
            _ => false,
        },
{
    let Some(v) = nets else {
        return Err(FdApplyError::Todo(string_from("VM config is missing net devices")));
    };
    let Some(i) = find_net_index(v, id) else {
        return Err(FdApplyError::Todo(concat_str("could not find net device with id ", id.as_str())));
    };
    proof {
        lemma_find_net_bound(net_seq_views(v@), id@);
        assert(net_seq_views(v@)[i as int] == v@[i as int]@);
    }
    let Some(outdated) = &v[i].fds else {
        let m = concat_str("cannot restore FDs for ", id.as_str());
        return Err(FdApplyError::Todo(concat_str(m.as_str(), ", device does not use FDs")));
    };
    if outdated.len() != count {
        return Err(FdApplyError::Todo(string_from("FD count mismatch between config and device")));
    }
    Ok(i)
}

/// Open descriptors with the numbers `raws`.
pub open spec fn actives(raws: Seq<i32>) -> Seq<SerializableFd> {
    raws.map_values(|x: i32| SerializableFd::Active(x))
}

/// The descriptors of device `k` in `content`: those of its last entry.
pub open spec fn content_lookup(content: Seq<(FdDevice, Vec<i32>)>, k: FdDeviceSpec) -> Option<Seq<SerializableFd>>
    decreases content.len(),
{
    if content.len() == 0 {
        None
    } else if content.last().0@ == k {
        Some(actives(content.last().1@))
    } else {
        content_lookup(content.drop_last(), k)
    }
}

fn actives_of(raws: &Vec<i32>) -> (r: Vec<SerializableFd>)
    ensures
        r@ == actives(raws@),
{
    let mut out: Vec<SerializableFd> = Vec::new();
    let mut k: usize = 0;
    while k < raws.len()
        invariant
            k <= raws@.len(),
            out@ == actives(raws@.take(k as int)),
        decreases raws@.len() - k,
    {
        out.push(SerializableFd::Active(raws[k]));
        assert(out@ =~= actives(raws@.take(k + 1)));
        k = k + 1;
    }
    assert(raws@.take(raws@.len() as int) =~= raws@);
    out
}

fn set_fds(n: &mut NetConfig, fds: Vec<i32>)
    ensures
        final(n)@ == with_fds(old(n)@, fds@),
{
    n.fds = Some(fds);
}

fn raw_fds_of(fds: &Vec<SerializableFd>) -> (r: Vec<i32>)
    ensures
        r@ == raw_fds(fds@),
{
    let mut out: Vec<i32> = Vec::new();
    let mut k: usize = 0;
    while k < fds.len()
        invariant
            k <= fds@.len(),
            out@ == raw_fds(fds@.take(k as int)),
        decreases fds@.len() - k,
    {
        out.push(fds[k].raw());
        assert(out@ =~= raw_fds(fds@.take(k + 1)));
        k = k + 1;
    }
    assert(fds@.take(fds@.len() as int) =~= fds@);
    out
}

/// The descriptors of each device, the devices in increasing order.
#[derive(Debug, Default, PartialEq, Eq)]
pub struct FdMap {
    devices: crate::fd_map::FdMap,
}

impl View for FdMap {
    type V = Seq<(FdDeviceSpec, Seq<SerializableFd>)>;

    closed spec fn view(&self) -> Seq<(FdDeviceSpec, Seq<SerializableFd>)> {
        self.devices@
    }
}

impl FdMap {
    /// The map is well formed: its devices are in increasing order.
    pub closed spec fn wf(&self) -> bool {
        self.devices.wf()
    }

    pub fn new() -> (r: Self)
        ensures
            r.wf(),
            r@ == Seq::<(FdDeviceSpec, Seq<SerializableFd>)>::empty(),
    {
        FdMap { devices: crate::fd_map::FdMap::new() }
    }

    /// The map holding, for each device of `content`, its descriptors there,
    /// open in this process; a device given twice keeps the later ones.
    pub fn new_with_content(content: &Vec<(FdDevice, Vec<i32>)>) -> (r: Self)
        ensures
            r.wf(),
            forall|k: FdDeviceSpec| #[trigger] lookup(r@, k) == content_lookup(content@, k),
    {
        let mut m = FdMap::new();
        let mut i: usize = 0;
        while i < content.len()
            invariant
                i <= content@.len(),
                m.wf(),
                forall|k: FdDeviceSpec| #[trigger] lookup(m@, k) == content_lookup(content@.take(i as int), k),
            decreases content@.len() - i,
        {
            let fds = actives_of(&content[i].1);
            let device = copy_device(&content[i].0);
            let ghost before = m@;
            let _ = m.devices.remove(&device);
            m.devices.insert(device, fds);
            proof {
                let c = content@.take(i + 1);
                assert(c.drop_last() =~= content@.take(i as int));
                assert(c.last() == content@[i as int]);
            }
            i = i + 1;
        }
        assert(content@.take(content@.len() as int) =~= content@);
        m
    }

    /// Appends `fd` to the descriptors of `device`.
    pub fn insert(&mut self, device: FdDevice, fd: SerializableFd)
        requires
            old(self).wf(),
        ensures
            final(self).wf(),
            forall|k: FdDeviceSpec| #[trigger] lookup(final(self)@, k) == if k == device@ {
                match lookup(old(self)@, k) {
                    Some(v) => Some(v.push(fd)),
                    None => Some(seq![fd]),
                }
            } else {
                lookup(old(self)@, k)
            },
    {
        let mut v: Vec<SerializableFd> = Vec::new();
        v.push(fd);
        assert(v@ =~= seq![fd]);
        self.devices.insert(device, v);
        assert forall|k: FdDeviceSpec| #[trigger] lookup(self@, k) == if k == device@ {
            match lookup(old(self)@, k) {
                Some(x) => Some(x.push(fd)),
                None => Some(seq![fd]),
            }
        } else {
            lookup(old(self)@, k)
        } by {
            if let Some(x) = lookup(old(self)@, k) {
                assert(x + seq![fd] =~= x.push(fd));
            }
        }
    }

    /// Whether the map holds no device.
    pub fn is_empty(&self) -> (r: bool)
        ensures
            r == (self@.len() == 0),
    {
        self.devices.is_empty()
    }

    /// The number of descriptors of all devices; `None` when it does not fit
    /// a `usize`.
    pub fn fd_count(&self) -> (r: Option<usize>)
        ensures
            match r {
                Some(n) => n == flatten(self@).len(),
                None => flatten(self@).len() > usize::MAX,
            },
    {
        self.devices.fd_count()
    }

    /// Replaces the descriptors, device after device, by the open descriptors
    /// `fds`, which are exactly as many.
    pub fn update_fds(&mut self, fds: Vec<i32>)
        requires
            old(self).wf(),
            flatten(old(self)@).len() == fds@.len(),
        ensures
            final(self).wf(),
            same_shape(final(self)@, old(self)@),
            flatten(final(self)@) == Seq::new(fds@.len(), |k: int| SerializableFd::Active(fds@[k])),
    {
        self.devices.update_fds(fds)
    }

    /// Takes the open descriptors out, device after device, leaving only
    /// their numbers behind.
    pub fn extract_fds(&mut self) -> (r: Vec<SerializableFd>)
        requires
            old(self).wf(),
        ensures
            final(self).wf(),
            r@ == flatten(old(self)@).filter(|f: SerializableFd| f is Active),
            same_shape(final(self)@, old(self)@),
            flatten(final(self)@) == flatten(old(self)@).map_values(|f: SerializableFd| SerializableFd::Serialized(fd_raw(f))),
    {
        self.devices.extract_active_fds()
    }
}

impl FdMap {
    fn validate_net(net_device_id: &String, fds: &Vec<SerializableFd>, vm_config: &VmConfig) -> (r: Result<(), FdApplyError>)
        ensures
            match net_fd_check(nets_opt_view(vm_config.net), net_device_id@, fds@.len()) {
                Ok(_) => r is Ok,
                Err(m) => r matches Err(e) && e@ == m,
            },
    {
        match check_net(&vm_config.net, net_device_id, fds.len()) {
            Ok(_) => Ok(()),
            Err(e) => Err(e),
        }
    }

    fn apply_net(net_device_id: &String, fds: &Vec<SerializableFd>, vm_config: &mut VmConfig) -> (r: Result<(), FdApplyError>)
        ensures
            match net_fd_check(nets_opt_view(old(vm_config).net), net_device_id@, fds@.len()) {
                Ok(i) => r is Ok && nets_replaced(old(vm_config), final(vm_config), Some(
                    nets_opt_view(old(vm_config).net)->0.update(
                        i,
                        with_fds(nets_opt_view(old(vm_config).net)->0[i], raw_fds(fds@)),
                    ),
                )),
                Err(m) => r matches Err(e) && e@ == m && *final(vm_config) == *old(vm_config),
            },
    {
        let i = match check_net(&vm_config.net, net_device_id, fds.len()) {
            Ok(i) => i,
            Err(e) => return Err(e),
        };
        let raws = raw_fds_of(fds);
        let mut nets: Option<Vec<NetConfig>> = None;
        std::mem::swap(&mut nets, &mut vm_config.net);
        if let Some(mut v) = nets {
            proof {
                lemma_find_net_bound(net_seq_views(v@), net_device_id@);
            }
            let ghost before = v@;
            set_fds(&mut v[i], raws);
            proof {
                assert(v@ == before.update(i as int, v@[i as int]));
                assert(net_seq_views(v@) =~= net_seq_views(before).update(
                    i as int,
                    with_fds(net_seq_views(before)[i as int], raw_fds(fds@)),
                ));
            }
            vm_config.net = Some(v);
        }
        Ok(())
    }

    /// Checks that the descriptors of each device, in order, fit the
    /// configuration: its net device with that id uses as many descriptors.
    pub fn validate(&self, vm_config: &VmConfig) -> (r: Result<(), FdApplyError>)
        ensures
            match validate_verdict(nets_opt_view(vm_config.net), self@) {
                Ok(()) => r is Ok,
                Err(m) => r matches Err(e) && e@ == m,
            },
    {
        let entries = self.devices.entries();
        let ghost es = self@;
        let ghost ns = nets_opt_view(vm_config.net);
        let mut i: usize = 0;
        assert(es.take(0) =~= Seq::<(FdDeviceSpec, Seq<SerializableFd>)>::empty());
        while i < entries.len()
            invariant
                es == pairs_view(entries@),
                es == self@,
                ns == nets_opt_view(vm_config.net),
                i <= entries@.len(),
                validate_verdict(ns, es.take(i as int)) is Ok,
            decreases entries@.len() - i,
        {
            proof {
                assert(es.take(i + 1).drop_last() =~= es.take(i as int));
                assert(es.take(i + 1).last() == es[i as int]);
            }
            match &entries[i].0 {
                FdDevice::Net { id } => {
                    if let Err(e) = Self::validate_net(id, &entries[i].1, vm_config) {
                        proof {
                            assert(es[i as int] == (FdDeviceSpec::Net(id@), entries@[i as int].1@));
                            assert(entry_check(ns, es[i as int]) == Err::<int, Seq<char>>(e@));
                            assert(validate_verdict(ns, es.take(i + 1)) == Err::<(), Seq<char>>(e@));
                            lemma_validate_err_stays(ns, es, i + 1);
                        }
                        return Err(e);
                    }
                },
            }
            i = i + 1;
        }
        assert(es.take(es.len() as int) =~= es);
        Ok(())
    }

    /// Hands the descriptors of each device, in order, to the net device of
    /// the configuration with that id, in place of its own; stops at the
    /// first device whose descriptors do not fit, those before it keeping
    /// their new descriptors.
    pub fn apply(self, vm_config: &mut VmConfig) -> (r: Result<(), FdApplyError>)
        ensures
            nets_replaced(old(vm_config), final(vm_config), apply_nets(nets_opt_view(old(vm_config).net), self@).0),
            match apply_nets(nets_opt_view(old(vm_config).net), self@).1 {
                None => r is Ok,
                Some(m) => r matches Err(e) && e@ == m,
            },
    {
        let ghost es = self@;
        let ghost ns = nets_opt_view(vm_config.net);
        let entries = self.devices.into_entries();
        let mut i: usize = 0;
        assert(es.take(0) =~= Seq::<(FdDeviceSpec, Seq<SerializableFd>)>::empty());
        while i < entries.len()
            invariant
                es == pairs_view(entries@),
                es == self@,
                ns == nets_opt_view(old(vm_config).net),
                i <= entries@.len(),
                apply_nets(ns, es.take(i as int)).1 is None,
                nets_replaced(old(vm_config), vm_config, apply_nets(ns, es.take(i as int)).0),
            decreases entries@.len() - i,
        {
            proof {
                assert(es.take(i + 1).drop_last() =~= es.take(i as int));
                assert(es.take(i + 1).last() == es[i as int]);
            }
            match &entries[i].0 {
                FdDevice::Net { id } => {
                    if let Err(e) = Self::apply_net(id, &entries[i].1, vm_config) {
                        proof {
                            assert(es[i as int] == (FdDeviceSpec::Net(id@), entries@[i as int].1@));
                            assert(entry_check(apply_nets(ns, es.take(i as int)).0, es[i as int]) == Err::<int, Seq<char>>(e@));
                            assert(apply_nets(ns, es.take(i + 1)).1 == Some(e@));
                            lemma_apply_err_stays(ns, es, i + 1);
                        }
                        return Err(e);
                    }
                },
            }
            i = i + 1;
        }
        assert(es.take(es.len() as int) =~= es);
        Ok(())
    }
}

proof fn lemma_validate_err_stays(ns: Option<Seq<NetConfigSpec>>, es: Seq<(FdDeviceSpec, Seq<SerializableFd>)>, k: int)
    requires
        0 <= k <= es.len(),
        validate_verdict(ns, es.take(k)) is Err,
    ensures
        validate_verdict(ns, es) == validate_verdict(ns, es.take(k)),
    decreases es.len() - k,
{
    if k < es.len() {
        assert(es.take(k + 1).drop_last() =~= es.take(k));
        lemma_validate_err_stays(ns, es, k + 1);
    } else {
        assert(es.take(k) =~= es);
    }
}

proof fn lemma_apply_err_stays(ns: Option<Seq<NetConfigSpec>>, es: Seq<(FdDeviceSpec, Seq<SerializableFd>)>, k: int)
    requires
        0 <= k <= es.len(),
        apply_nets(ns, es.take(k)).1 is Some,
    ensures
        apply_nets(ns, es) == apply_nets(ns, es.take(k)),
    decreases es.len() - k,
{
    if k < es.len() {
        assert(es.take(k + 1).drop_last() =~= es.take(k));
        lemma_apply_err_stays(ns, es, k + 1);
    } else {
        assert(es.take(k) =~= es);
    }
}

/// The net devices keep their ids, and which of them use descriptors and
/// how many.
pub open spec fn same_net_shape(a: Option<Seq<NetConfigSpec>>, b: Option<Seq<NetConfigSpec>>) -> bool {
    match (a, b) {
        (None, None) => true,
        (Some(x), Some(y)) => {
            &&& x.len() == y.len()
            &&& forall|i: int| 0 <= i < x.len() ==> {
                &&& (#[trigger] x[i]).pci_common.id == y[i].pci_common.id
                &&& (x[i].fds is Some <==> y[i].fds is Some)
                &&& (x[i].fds is Some ==> x[i].fds->0.len() == y[i].fds->0.len())
            }
        },
        _ => false,
    }
}

proof fn lemma_find_net_same_shape(x: Seq<NetConfigSpec>, y: Seq<NetConfigSpec>, id: Seq<char>)
    requires
        same_net_shape(Some(x), Some(y)),
    ensures
        find_net(x, id) == find_net(y, id),
    decreases x.len(),
{
    if x.len() > 0 {
        assert(same_net_shape(Some(x.drop_last()), Some(y.drop_last()))) by {
            assert forall|i: int| 0 <= i < x.drop_last().len() implies {
                &&& (#[trigger] x.drop_last()[i]).pci_common.id == y.drop_last()[i].pci_common.id
                &&& (x.drop_last()[i].fds is Some <==> y.drop_last()[i].fds is Some)
                &&& (x.drop_last()[i].fds is Some ==> x.drop_last()[i].fds->0.len() == y.drop_last()[i].fds->0.len())
            } by {
                assert(x[i] == x.drop_last()[i]);
            }
        }
        lemma_find_net_same_shape(x.drop_last(), y.drop_last(), id);
        assert(x[x.len() - 1] == x.last());
    }
}

proof fn lemma_entry_check_same_shape(
    a: Option<Seq<NetConfigSpec>>,
    b: Option<Seq<NetConfigSpec>>,
    e: (FdDeviceSpec, Seq<SerializableFd>),
)
    requires
        same_net_shape(a, b),
    ensures
        entry_check(a, e) == entry_check(b, e),
{
    if let (Some(x), Some(y)) = (a, b) {
        match e.0 {
            FdDeviceSpec::Net(id) => {
                lemma_find_net_same_shape(x, y, id);
                lemma_find_net_bound(x, id);
            },
        }
    }
}

proof fn lemma_apply_nets_shape(ns: Option<Seq<NetConfigSpec>>, es: Seq<(FdDeviceSpec, Seq<SerializableFd>)>)
    ensures
        same_net_shape(ns, apply_nets(ns, es).0),
        apply_nets(ns, es).1 == match validate_verdict(ns, es) {
            Ok(()) => None::<Seq<char>>,
            Err(m) => Some(m),
        },
    decreases es.len(),
{
    if es.len() == 0 {
        if let Some(x) = ns {
            assert(same_net_shape(ns, ns));
        }
    } else {
        lemma_apply_nets_shape(ns, es.drop_last());
        let (ns1, e1) = apply_nets(ns, es.drop_last());
        if e1 is None {
            lemma_entry_check_same_shape(ns, ns1, es.last());
            if let Ok(i) = entry_check(ns1, es.last()) {
                let x = ns->0;
                let y = ns1->0;
                match es.last().0 {
                    FdDeviceSpec::Net(id) => lemma_find_net_bound(y, id),
                }
                let z = y.update(i, with_fds(y[i], raw_fds(es.last().1)));
                assert forall|k: int| 0 <= k < x.len() implies {
                    &&& (#[trigger] x[k]).pci_common.id == z[k].pci_common.id
                    &&& (x[k].fds is Some <==> z[k].fds is Some)
                    &&& (x[k].fds is Some ==> x[k].fds->0.len() == z[k].fds->0.len())
                } by {
                    assert(y[k].pci_common.id == x[k].pci_common.id);
                }
            }
        }
    }
}

/// Handing the descriptors of a map over to a configuration fails exactly
/// when checking them against it fails, and with the same complaint; when
/// it succeeds, every net device keeps its id and as many descriptors.
pub proof fn lemma_apply_agrees_with_validate(ns: Option<Seq<NetConfigSpec>>, es: Seq<(FdDeviceSpec, Seq<SerializableFd>)>)
    ensures
        apply_nets(ns, es).1 == match validate_verdict(ns, es) {
            Ok(()) => None::<Seq<char>>,
            Err(m) => Some(m),
        },
        same_net_shape(ns, apply_nets(ns, es).0),
{
    lemma_apply_nets_shape(ns, es);
}

} // verus!
