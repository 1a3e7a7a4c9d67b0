//! File descriptors grouped by the device that owns them, in the order of
//! the devices.
use vstd::prelude::*;

use crate::fd_device::{FdDevice, FdDeviceSpec, SerializableFd};
use crate::text::{chars_eq, chars_lt, chars_of, lemma_seq_lt_irreflexive, lemma_seq_lt_total, lemma_seq_lt_transitive, seq_lt, string_from};

verus! {

/// The order of devices: by id.
pub open spec fn device_lt(a: FdDeviceSpec, b: FdDeviceSpec) -> bool {
    match (a, b) {
        (FdDeviceSpec::Net(x), FdDeviceSpec::Net(y)) => seq_lt(x, y),
    }
}

fn device_less(a: &FdDevice, b: &FdDevice) -> (r: bool)
    ensures
        r == device_lt(a@, b@),
{
    match (a, b) {
        (FdDevice::Net { id: x }, FdDevice::Net { id: y }) => {
            let xv = chars_of(x.as_str());
            let yv = chars_of(y.as_str());
            chars_lt(&xv, &yv)
        },
    }
}

fn device_eq(a: &FdDevice, b: &FdDevice) -> (r: bool)
    ensures
        r == (a@ == b@),
{
    match (a, b) {
        (FdDevice::Net { id: x }, FdDevice::Net { id: y }) => {
            let xv = chars_of(x.as_str());
            let yv = chars_of(y.as_str());
            chars_eq(&xv, &yv)
        },
    }
}

pub(crate) fn copy_device(d: &FdDevice) -> (r: FdDevice)
    ensures
        r@ == d@,
{
    match d {
        FdDevice::Net { id } => FdDevice::Net { id: string_from(id.as_str()) },
    }
}

proof fn lemma_device_lt_total(a: FdDeviceSpec, b: FdDeviceSpec)
    requires
        a != b,
    ensures
        device_lt(a, b) || device_lt(b, a),
{
    match (a, b) {
        (FdDeviceSpec::Net(x), FdDeviceSpec::Net(y)) => lemma_seq_lt_total(x, y),
    }
}

proof fn lemma_device_lt_transitive(a: FdDeviceSpec, b: FdDeviceSpec, c: FdDeviceSpec)
    requires
        device_lt(a, b),
        device_lt(b, c),
    ensures
        device_lt(a, c),
{
    match (a, b, c) {
        (FdDeviceSpec::Net(x), FdDeviceSpec::Net(y), FdDeviceSpec::Net(z)) => lemma_seq_lt_transitive(x, y, z),
    }
}

proof fn lemma_device_lt_irreflexive(a: FdDeviceSpec)
    ensures
        !device_lt(a, a),
{
    match a {
        FdDeviceSpec::Net(x) => lemma_seq_lt_irreflexive(x),
    }
}

/// The descriptors of each device, the devices in increasing order.
#[derive(Debug, Default, PartialEq, Eq)]
pub struct FdMap {
    fd_map: Vec<(FdDevice, Vec<SerializableFd>)>,
}

pub open spec fn pairs_view(v: Seq<(FdDevice, Vec<SerializableFd>)>) -> Seq<(FdDeviceSpec, Seq<SerializableFd>)> {
    Seq::new(v.len(), |i: int| (v[i].0@, v[i].1@))
}

impl View for FdMap {
    type V = Seq<(FdDeviceSpec, Seq<SerializableFd>)>;

    closed spec fn view(&self) -> Seq<(FdDeviceSpec, Seq<SerializableFd>)> {
        pairs_view(self.fd_map@)
    }
}

/// The devices are in strictly increasing order.
pub open spec fn keys_sorted(s: Seq<(FdDeviceSpec, Seq<SerializableFd>)>) -> bool {
    forall|i: int, j: int| 0 <= i < j < s.len() ==> device_lt(s[i].0, s[j].0)
}

/// The descriptors of device `k`.
pub open spec fn lookup(s: Seq<(FdDeviceSpec, Seq<SerializableFd>)>, k: FdDeviceSpec) -> Option<Seq<SerializableFd>> {
    if exists|i: int| 0 <= i < s.len() && s[i].0 == k {
        Some(s[choose|i: int| 0 <= i < s.len() && s[i].0 == k].1)
    } else {
        None
    }
}

/// All descriptors, device after device.
pub open spec fn flatten(s: Seq<(FdDeviceSpec, Seq<SerializableFd>)>) -> Seq<SerializableFd>
    decreases s.len(),
{
    if s.len() == 0 {
        Seq::empty()
    } else {
        flatten(s.drop_last()) + s.last().1
    }
}

proof fn lemma_lookup_at(s: Seq<(FdDeviceSpec, Seq<SerializableFd>)>, i: int)
    requires
        keys_sorted(s),
        0 <= i < s.len(),
    ensures
        lookup(s, s[i].0) == Some(s[i].1),
{
    let j = choose|j: int| 0 <= j < s.len() && s[j].0 == s[i].0;
    if j != i {
        if j < i {
            lemma_device_lt_irreflexive(s[i].0);
        } else {
            lemma_device_lt_irreflexive(s[i].0);
        }
    }
}

impl FdMap {
    /// The map is well formed: its devices are in increasing order.
    pub closed spec fn wf(&self) -> bool {
        keys_sorted(self@)
    }

    pub fn new() -> (r: Self)
        ensures
            r.wf(),
            r@ == Seq::<(FdDeviceSpec, Seq<SerializableFd>)>::empty(),
    {
        let r = FdMap { fd_map: Vec::new() };
        assert(r@ =~= Seq::<(FdDeviceSpec, Seq<SerializableFd>)>::empty());
        r
    }

    /// The map with one device.
    pub fn new_with_entry(key: FdDevice, value: Vec<SerializableFd>) -> (r: Self)
        ensures
            r.wf(),
            r@ == seq![(key@, value@)],
    {
        let mut v: Vec<(FdDevice, Vec<SerializableFd>)> = Vec::new();
        let ghost kv = (key@, value@);
        v.push((key, value));
        let r = FdMap { fd_map: v };
        assert(r@ =~= seq![kv]);
        r
    }

    /// Index of the first device not before `device`.
    fn seek(&self, device: &FdDevice) -> (r: usize)
        requires
            self.wf(),
        ensures
            r <= self@.len(),
            forall|j: int| 0 <= j < r ==> device_lt(#[trigger] self@[j].0, device@),
            r < self@.len() ==> !device_lt(self@[r as int].0, device@),
    {
        let mut k: usize = 0;
        while k < self.fd_map.len()
            invariant
                self@.len() == self.fd_map@.len(),
                k <= self@.len(),
                forall|j: int| 0 <= j < k ==> device_lt(#[trigger] self@[j].0, device@),
            ensures
                k <= self@.len(),
                forall|j: int| 0 <= j < k ==> device_lt(#[trigger] self@[j].0, device@),
                k < self@.len() ==> !device_lt(self@[k as int].0, device@),
            decreases self@.len() - k,
        {
            if !device_less(&self.fd_map[k].0, device) {
                break;
            }
            k = k + 1;
        }
        k
    }

    /// Position of `device`, if it is in the map.
    fn find(&self, device: &FdDevice) -> (r: Option<usize>)
        requires
            self.wf(),
        ensures
            match r {
                Some(i) => i < self@.len() && self@[i as int].0 == device@,
                None => forall|j: int| 0 <= j < self@.len() ==> self@[j].0 != device@,
            },
    {
        let k = self.seek(device);
        if k < self.fd_map.len() && device_eq(&self.fd_map[k].0, device) {
            return Some(k);
        }
        proof {
            assert forall|j: int| 0 <= j < self@.len() implies self@[j].0 != device@ by {
                if j < k {
                    lemma_device_lt_irreflexive(device@);
                } else {
                    if self@[j].0 == device@ {
                        if j > k {
                            lemma_device_lt_total(self@[k as int].0, device@);
                            lemma_device_lt_transitive(device@, self@[k as int].0, self@[j].0);
                            lemma_device_lt_irreflexive(device@);
                        }
                    }
                }
            }
        }
        None
    }

    /// Appends `fd` to the descriptors of `device`, adding it when it is new.
    pub fn insert(&mut self, device: FdDevice, fd: Vec<SerializableFd>)
        requires
            old(self).wf(),
        ensures
            final(self).wf(),
            forall|k: FdDeviceSpec| #[trigger] lookup(final(self)@, k) == if k == device@ {
                match lookup(old(self)@, k) {
                    Some(v) => Some(v + fd@),
                    None => Some(fd@),
                }
            } else {
                lookup(old(self)@, k)
            },
    {
        let ghost old_v = self@;
        let k = self.seek(&device);
        if k < self.fd_map.len() && device_eq(&self.fd_map[k].0, &device) {
            let ghost before = self.fd_map@;
            let mut fd = fd;
            let ghost add = fd@;
            self.fd_map[k].1.append(&mut fd);
            proof {
                assert(self.fd_map@ == before.update(k as int, self.fd_map@[k as int]));
                let n = self@;
                assert forall|i: int| 0 <= i < n.len() implies #[trigger] n[i] == (if i == k {
                    (old_v[i].0, old_v[i].1 + add)
                } else {
                    old_v[i]
                }) by {}
                assert forall|q: FdDeviceSpec| #[trigger] lookup(n, q) == if q == device@ {
                    match lookup(old_v, q) {
                        Some(v) => Some(v + add),
                        None => Some(add),
                    }
                } else {
                    lookup(old_v, q)
                } by {
                    lemma_lookup_at(old_v, k as int);
                    if exists|i: int| 0 <= i < n.len() && n[i].0 == q {
                        let i = choose|i: int| 0 <= i < n.len() && n[i].0 == q;
                        lemma_lookup_at(n, i);
                        lemma_lookup_at(old_v, i);
                    } else {
                        if exists|i: int| 0 <= i < old_v.len() && old_v[i].0 == q {
                            let i = choose|i: int| 0 <= i < old_v.len() && old_v[i].0 == q;
                            assert(n[i].0 == q);
                        }
                    }
                }
            }
            return;
        }
        proof {
            if k < old_v.len() {
                lemma_device_lt_total(old_v[k as int].0, device@);
            }
        }
        let ghost kv = (device@, fd@);
        self.fd_map.insert(k, (device, fd));
        proof {
            let n = self@;
            assert(n =~= old_v.insert(k as int, kv));
            assert forall|i: int, j: int| 0 <= i < j < n.len() implies device_lt(n[i].0, n[j].0) by {
                if j < k {
                } else if j == k {
                } else if i < k {
                    lemma_device_lt_transitive(n[i].0, kv.0, old_v[k as int].0);
                    if j - 1 > k {
                        lemma_device_lt_transitive(n[i].0, old_v[k as int].0, old_v[j - 1].0);
                    }
                } else if i == k {
                    if j - 1 > k {
                        lemma_device_lt_transitive(kv.0, old_v[k as int].0, old_v[j - 1].0);
                    }
                }
            }
            assert forall|i: int| 0 <= i < old_v.len() implies old_v[i].0 != kv.0 by {
                lemma_device_lt_irreflexive(kv.0);
                if i > k {
                    lemma_device_lt_transitive(kv.0, old_v[k as int].0, old_v[i].0);
                }
            }
            assert forall|q: FdDeviceSpec| #[trigger] lookup(n, q) == if q == device@ {
                match lookup(old_v, q) {
                    Some(v) => Some(v + kv.1),
                    None => Some(kv.1),
                }
            } else {
                lookup(old_v, q)
            } by {
                if q == kv.0 {
                    lemma_lookup_at(n, k as int);
                } else {
                    if exists|i: int| 0 <= i < n.len() && n[i].0 == q {
                        let i = choose|i: int| 0 <= i < n.len() && n[i].0 == q;
                        lemma_lookup_at(n, i);
                        let oi = if i < k { i } else { i - 1 };
                        assert(old_v[oi] == n[i]);
                        lemma_lookup_at(old_v, oi);
                    } else {
                        if exists|i: int| 0 <= i < old_v.len() && old_v[i].0 == q {
                            let i = choose|i: int| 0 <= i < old_v.len() && old_v[i].0 == q;
                            let ni = if i < k { i } else { i + 1 };
                            assert(n[ni].0 == q);
                        }
                    }
                }
            }
        }
    }

    /// Takes the descriptors of `device` out of the map.
    pub fn remove(&mut self, device: &FdDevice) -> (r: Option<Vec<SerializableFd>>)
        requires
            old(self).wf(),
        ensures
            final(self).wf(),
            match lookup(old(self)@, device@) {
                Some(v) => r matches Some(x) && x@ == v,
                None => r is None,
            },
            forall|k: FdDeviceSpec| #[trigger] lookup(final(self)@, k) == if k == device@ {
                None
            } else {
                lookup(old(self)@, k)
            },
    {
        let ghost old_v = self@;
        match self.find(device) {
            None => {
                assert(lookup(old_v, device@) is None);
                None
            },
            Some(k) => {
                proof {
                    lemma_lookup_at(old_v, k as int);
                }
                let (_, fds) = self.fd_map.remove(k);
                proof {
                    let n = self@;
                    assert(n =~= old_v.remove(k as int));
                    assert forall|i: int, j: int| 0 <= i < j < n.len() implies device_lt(n[i].0, n[j].0) by {
                        let oi = if i < k { i } else { i + 1 };
                        let oj = if j < k { j } else { j + 1 };
                        assert(n[i] == old_v[oi] && n[j] == old_v[oj]);
                    }
                    assert forall|q: FdDeviceSpec| #[trigger] lookup(n, q) == if q == device@ {
                        None
                    } else {
                        lookup(old_v, q)
                    } by {
                        if exists|i: int| 0 <= i < n.len() && n[i].0 == q {
                            let i = choose|i: int| 0 <= i < n.len() && n[i].0 == q;
                            let oi = if i < k { i } else { i + 1 };
                            assert(n[i] == old_v[oi]);
                            lemma_lookup_at(n, i);
                            lemma_lookup_at(old_v, oi);
                            if q == device@ {
                                lemma_device_lt_irreflexive(q);
                            }
                        } else {
                            if q != device@ && exists|i: int| 0 <= i < old_v.len() && old_v[i].0 == q {
                                let i = choose|i: int| 0 <= i < old_v.len() && old_v[i].0 == q;
                                assert(i != k);
                                let ni = if i < k { i } else { i - 1 };
                                assert(n[ni].0 == q);
                            }
                        }
                    }
                }
                Some(fds)
            },
        }
    }

    /// Whether the map holds no device.
    pub fn is_empty(&self) -> (r: bool)
        ensures
            r == (self@.len() == 0),
    {
        self.fd_map.len() == 0
    }

    /// The number of descriptors of all devices; `None` when it does not fit
    /// a `usize`.
    pub fn fd_count(&self) -> (r: Option<usize>)
        ensures
            match r {
                Some(n) => n == flatten(self@).len(),
                None => flatten(self@).len() > usize::MAX,
            },
    {
        let ghost s = self@;
        let mut total: usize = 0;
        let mut i: usize = 0;
        assert(s.take(0) =~= Seq::<(FdDeviceSpec, Seq<SerializableFd>)>::empty());
        while i < self.fd_map.len()
            invariant
                s == self@,
                s.len() == self.fd_map@.len(),
                i <= s.len(),
                total == flatten(s.take(i as int)).len(),
            decreases s.len() - i,
        {
            let n = self.fd_map[i].1.len();
            proof {
                assert(s.take(i + 1).drop_last() =~= s.take(i as int));
                assert(s.take(i + 1).last() == s[i as int]);
            }
            if total > usize::MAX - n {
                proof {
                    lemma_flatten_prefix(s, i + 1);
                }
                return None;
            }
            total = total + n;
            i = i + 1;
        }
        assert(s.take(s.len() as int) =~= s);
        Some(total)
    }

    /// The devices and their descriptors, in order.
    pub fn entries(&self) -> (r: &Vec<(FdDevice, Vec<SerializableFd>)>)
        ensures
            pairs_view(r@) == self@,
    {
        &self.fd_map
    }

    /// The devices and their descriptors, in order, taken out of the map.
    pub fn into_entries(self) -> (r: Vec<(FdDevice, Vec<SerializableFd>)>)
        ensures
            pairs_view(r@) == self@,
    {
        self.fd_map
    }

    /// Whether every descriptor is open in this process.
    pub fn is_valid(&self) -> (r: bool)
        ensures
            r == forall|i: int| 0 <= i < flatten(self@).len() ==> (#[trigger] flatten(self@)[i]) is Active,
    {
        let ghost s = self@;
        let mut i: usize = 0;
        assert(s.take(0) =~= Seq::<(FdDeviceSpec, Seq<SerializableFd>)>::empty());
        while i < self.fd_map.len()
            invariant
                s == self@,
                i <= s.len(),
                s.len() == self.fd_map@.len(),
                forall|j: int| 0 <= j < flatten(s.take(i as int)).len() ==> (#[trigger] flatten(s.take(i as int))[j]) is Active,
            decreases s.len() - i,
        {
            let fds = &self.fd_map[i].1;
            let mut j: usize = 0;
            while j < fds.len()
                invariant
                    s == self@,
                    i < s.len(),
                    s.len() == self.fd_map@.len(),
                    fds@ == s[i as int].1,
                    j <= fds@.len(),
                    forall|m: int| 0 <= m < j ==> (#[trigger] fds@[m]) is Active,
                decreases fds@.len() - j,
            {
                if !fds[j].is_active() {
                    proof {
                        assert(s.take(i as int + 1).drop_last() =~= s.take(i as int));
                        assert(s.take(i as int + 1).last() == s[i as int]);
                        let f = flatten(s.take(i as int + 1));
                        let base = flatten(s.take(i as int)).len();
                        assert(f == flatten(s.take(i as int)) + s[i as int].1);
                        assert(f[base + j] == fds@[j as int]);
                        lemma_flatten_prefix_elems(s, i as int + 1, base + j);
                    }
                    return false;
                }
                j = j + 1;
            }
            proof {
                assert(s.take(i as int + 1).drop_last() =~= s.take(i as int));
                assert(s.take(i as int + 1).last() == s[i as int]);
                let f = flatten(s.take(i as int + 1));
                let base = flatten(s.take(i as int));
                assert(f == base + s[i as int].1);
                assert forall|m: int| 0 <= m < f.len() implies (#[trigger] f[m]) is Active by {
                    if m < base.len() {
                        assert(f[m] == base[m]);
                    } else {
                        assert(f[m] == s[i as int].1[m - base.len()]);
                    }
                }
            }
            i = i + 1;
        }
        assert(s.take(s.len() as int) =~= s);
        true
    }
}

proof fn lemma_flatten_prefix(s: Seq<(FdDeviceSpec, Seq<SerializableFd>)>, i: int)
    requires
        0 <= i <= s.len(),
    ensures
        flatten(s.take(i)).len() <= flatten(s).len(),
        forall|j: int| 0 <= j < flatten(s.take(i)).len() ==> flatten(s)[j] == #[trigger] flatten(s.take(i))[j],
    decreases s.len() - i,
{
    if i < s.len() {
        lemma_flatten_prefix(s, i + 1);
        assert(s.take(i + 1).drop_last() =~= s.take(i));
        assert(s.take(i + 1).last() == s[i]);
        let a = flatten(s.take(i));
        let b = flatten(s.take(i + 1));
        assert(b == a + s[i].1);
        assert forall|j: int| 0 <= j < a.len() implies flatten(s)[j] == #[trigger] a[j] by {
            assert(b[j] == a[j]);
        }
    } else {
        assert(s.take(i) =~= s);
    }
}

proof fn lemma_flatten_prefix_elems(s: Seq<(FdDeviceSpec, Seq<SerializableFd>)>, i: int, j: int)
    requires
        0 <= i <= s.len(),
        0 <= j < flatten(s.take(i)).len(),
    ensures
        j < flatten(s).len(),
        flatten(s)[j] == flatten(s.take(i))[j],
{
    lemma_flatten_prefix(s, i);
}

/// The descriptors of a device in two maps, those of the first map first.
pub open spec fn combine(a: Option<Seq<SerializableFd>>, b: Option<Seq<SerializableFd>>) -> Option<Seq<SerializableFd>> {
    match (a, b) {
        (Some(x), Some(y)) => Some(x + y),
        (Some(x), None) => Some(x),
        (None, Some(y)) => Some(y),
        (None, None) => None,
    }
}

proof fn lemma_sorted_take(s: Seq<(FdDeviceSpec, Seq<SerializableFd>)>, i: int)
    requires
        keys_sorted(s),
        0 <= i <= s.len(),
    ensures
        keys_sorted(s.take(i)),
{
    let t = s.take(i);
    assert forall|a: int, b: int| 0 <= a < b < t.len() implies device_lt(t[a].0, t[b].0) by {
        assert(t[a] == s[a] && t[b] == s[b]);
    }
}

proof fn lemma_lookup_take_step(s: Seq<(FdDeviceSpec, Seq<SerializableFd>)>, i: int, k: FdDeviceSpec)
    requires
        keys_sorted(s),
        0 <= i < s.len(),
    ensures
        lookup(s.take(i + 1), k) == if k == s[i].0 {
            Some(s[i].1)
        } else {
            lookup(s.take(i), k)
        },
        k == s[i].0 ==> lookup(s.take(i), k) is None,
{
    let a = s.take(i);
    let b = s.take(i + 1);
    lemma_sorted_take(s, i);
    lemma_sorted_take(s, i + 1);
    assert(b[i] == s[i]);
    lemma_lookup_at(b, i);
    if exists|j: int| 0 <= j < a.len() && a[j].0 == k {
        let j = choose|j: int| 0 <= j < a.len() && a[j].0 == k;
        assert(b[j] == a[j]);
        lemma_lookup_at(a, j);
        lemma_lookup_at(b, j);
        if k == s[i].0 {
            assert(device_lt(s[j].0, s[i].0));
            lemma_device_lt_irreflexive(k);
        }
    } else {
        if k != s[i].0 && exists|j: int| 0 <= j < b.len() && b[j].0 == k {
            let j = choose|j: int| 0 <= j < b.len() && b[j].0 == k;
            assert(j < i);
            assert(a[j] == b[j]);
        }
    }
}

impl FdMap {
    /// Adds the descriptors of `other`, device by device; a device in both
    /// maps gets those of `other` after its own.
    pub fn merge(&mut self, other: FdMap)
        requires
            old(self).wf(),
            other.wf(),
        ensures
            final(self).wf(),
            forall|k: FdDeviceSpec| #[trigger] lookup(final(self)@, k) == combine(lookup(old(self)@, k), lookup(other@, k)),
    {
        let ghost start = self@;
        let ghost all = other@;
        let mut rest = other.fd_map;
        let ghost mut done: int = 0;
        assert(pairs_view(rest@) =~= all.skip(0));
        assert forall|k: FdDeviceSpec| #[trigger] lookup(self@, k) == combine(lookup(start, k), lookup(all.take(0), k)) by {
            assert(all.take(0) =~= Seq::<(FdDeviceSpec, Seq<SerializableFd>)>::empty());
        }
        while rest.len() > 0
            invariant
                self.wf(),
                0 <= done <= all.len(),
                keys_sorted(all),
                pairs_view(rest@) == all.skip(done),
                forall|k: FdDeviceSpec| #[trigger] lookup(self@, k) == combine(lookup(start, k), lookup(all.take(done), k)),
            decreases rest@.len(),
        {
            let ghost before = self@;
            let ghost rv = rest@;
            assert(pairs_view(rv).len() == rv.len());
            assert(done < all.len());
            let (device, fds) = rest.remove(0);
            proof {
                assert(rest@ == rv.remove(0));
                assert(pairs_view(rv)[0] == all.skip(done)[0]);
                assert(all.skip(done)[0] == all[done]);
                assert(pairs_view(rest@) =~= all.skip(done + 1)) by {
                    assert forall|j: int| 0 <= j < pairs_view(rest@).len() implies pairs_view(rest@)[j] == all.skip(done + 1)[j] by {
                        assert(rest@[j] == rv[j + 1]);
                        assert(pairs_view(rv)[j + 1] == all.skip(done)[j + 1]);
                    }
                }
            }
            let ghost dv = device@;
            let ghost fv = fds@;
            assert(dv == all[done].0 && fv == all[done].1);
            self.insert(device, fds);
            proof {
                assert forall|k: FdDeviceSpec| #[trigger] lookup(self@, k) == combine(lookup(start, k), lookup(all.take(done + 1), k)) by {
                    lemma_lookup_take_step(all, done, k);
                    assert(lookup(before, k) == combine(lookup(start, k), lookup(all.take(done), k)));
                }
                done = done + 1;
            }
        }
        assert(all.take(done) =~= all);
    }

    /// Whether `other` has, for every device of this map, as many
    /// descriptors as this map.
    pub fn can_update(&self, other: &FdMap) -> (r: bool)
        requires
            self.wf(),
            other.wf(),
        ensures
            r == forall|i: int| 0 <= i < self@.len() ==> (lookup(other@, (#[trigger] self@[i]).0) matches Some(v) && v.len()
                == self@[i].1.len()),
    {
        let mut i: usize = 0;
        while i < self.fd_map.len()
            invariant
                self.wf(),
                other.wf(),
                i <= self@.len(),
                self@.len() == self.fd_map@.len(),
                forall|j: int| 0 <= j < i ==> (lookup(other@, (#[trigger] self@[j]).0) matches Some(v) && v.len() == self@[j].1.len()),
            decreases self@.len() - i,
        {
            match other.find(&self.fd_map[i].0) {
                Some(k) => {
                    proof {
                        lemma_lookup_at(other@, k as int);
                    }
                    if other.fd_map[k].1.len() != self.fd_map[i].1.len() {
                        assert(!(lookup(other@, self@[i as int].0) matches Some(v) && v.len() == self@[i as int].1.len()));
                        return false;
                    }
                },
                None => {
                    assert(lookup(other@, self@[i as int].0) is None);
                    return false;
                },
            }
            i = i + 1;
        }
        true
    }

    /// All descriptors, device after device in increasing order.
    pub fn extract_fds(&mut self) -> (r: Vec<SerializableFd>)
        ensures
            r@ == flatten(old(self)@),
            final(self)@ == old(self)@,
    {
        let ghost s = self@;
        let mut out: Vec<SerializableFd> = Vec::new();
        let mut i: usize = 0;
        assert(s.take(0) =~= Seq::<(FdDeviceSpec, Seq<SerializableFd>)>::empty());
        while i < self.fd_map.len()
            invariant
                s == self@,
                i <= s.len(),
                s.len() == self.fd_map@.len(),
                out@ == flatten(s.take(i as int)),
            decreases s.len() - i,
        {
            let fds = &self.fd_map[i].1;
            let mut j: usize = 0;
            let ghost base = out@;
            while j < fds.len()
                invariant
                    j <= fds@.len(),
                    out@ == base + fds@.take(j as int),
                decreases fds@.len() - j,
            {
                out.push(fds[j]);
                assert(out@ =~= base + fds@.take(j as int + 1));
                j = j + 1;
            }
            proof {
                assert(fds@.take(fds@.len() as int) =~= fds@);
                assert(s.take(i as int + 1).drop_last() =~= s.take(i as int));
                assert(s.take(i as int + 1).last() == s[i as int]);
            }
            i = i + 1;
        }
        assert(s.take(s.len() as int) =~= s);
        out
    }
}

/// The number of a descriptor.
pub open spec fn fd_raw(f: SerializableFd) -> i32 {
    match f {
        SerializableFd::Active(x) => x,
        SerializableFd::Serialized(x) => x,
    }
}

/// The map with the same devices, holding as many descriptors each.
pub open spec fn same_shape(a: Seq<(FdDeviceSpec, Seq<SerializableFd>)>, b: Seq<(FdDeviceSpec, Seq<SerializableFd>)>) -> bool {
    &&& a.len() == b.len()
    &&& forall|i: int| 0 <= i < a.len() ==> (#[trigger] a[i]).0 == b[i].0 && a[i].1.len() == b[i].1.len()
}

impl FdMap {
    /// Replaces the descriptors, device after device, by the open descriptors
    /// `fds`, which are exactly as many.
    pub fn update_fds(&mut self, fds: Vec<i32>)
        requires
            old(self).wf(),
            flatten(old(self)@).len() == fds@.len(),
        ensures
            final(self).wf(),
            same_shape(final(self)@, old(self)@),
            flatten(final(self)@) == Seq::new(fds@.len(), |k: int| SerializableFd::Active(fds@[k])),
    {
        let ghost s = self@;
        let ghost want = Seq::new(fds@.len(), |k: int| SerializableFd::Active(fds@[k]));
        let total = fds.len();
        let mut c: usize = 0;
        let mut i: usize = 0;
        assert(s.take(0) =~= Seq::<(FdDeviceSpec, Seq<SerializableFd>)>::empty());
        assert(self@.take(0) =~= Seq::<(FdDeviceSpec, Seq<SerializableFd>)>::empty());
        while i < self.fd_map.len()
            invariant
                s.len() == self@.len(),
                self@.len() == self.fd_map@.len(),
                i <= s.len(),
                keys_sorted(s),
                flatten(s).len() == fds@.len(),
                total == fds@.len(),
                want == Seq::new(fds@.len(), |k: int| SerializableFd::Active(fds@[k])),
                c == flatten(s.take(i as int)).len(),
                forall|k: int| 0 <= k < s.len() ==> (#[trigger] self@[k]).0 == s[k].0 && self@[k].1.len() == s[k].1.len(),
                forall|k: int| i <= k < s.len() ==> (#[trigger] self@[k]) == s[k],
                flatten(self@.take(i as int)) == want.take(c as int),
            decreases s.len() - i,
        {
            proof {
                lemma_flatten_prefix(s, i as int + 1);
                assert(s.take(i as int + 1).drop_last() =~= s.take(i as int));
                assert(s.take(i as int + 1).last() == s[i as int]);
            }
            let ghost before = self.fd_map@;
            let ghost sv = self@;
            assert(pairs_view(before)[i as int] == s[i as int]);
            assert(before[i as int].1@ == s[i as int].1);
            let mut old_fds: Vec<SerializableFd> = Vec::new();
            std::mem::swap(&mut old_fds, &mut self.fd_map[i].1);
            assert(old_fds@ == s[i as int].1);
            let n = old_fds.len();
            assert(flatten(s.take(i as int + 1)) == flatten(s.take(i as int)) + s[i as int].1);
            assert(c + n <= total);
            let mut new_fds: Vec<SerializableFd> = Vec::new();
            let mut j: usize = 0;
            while j < n
                invariant
                    i < s.len(),
                    j <= n,
                    n == s[i as int].1.len(),
                    c + n <= fds@.len(),
                    fds@.len() == total,
                    new_fds@ == want.subrange(c as int, c + j),
                    want == Seq::new(fds@.len(), |k: int| SerializableFd::Active(fds@[k])),
                decreases n - j,
            {
                new_fds.push(SerializableFd::Active(fds[c + j]));
                assert(new_fds@ =~= want.subrange(c as int, c + j + 1));
                j = j + 1;
            }
            std::mem::swap(&mut new_fds, &mut self.fd_map[i].1);
            proof {
                assert forall|k: int| 0 <= k < s.len() && k != i implies self.fd_map@[k] == before[k] by {}
                assert(self.fd_map@[i as int].0 == before[i as int].0);
                assert forall|k: int| 0 <= k < s.len() implies (#[trigger] self@[k]).0 == s[k].0 && self@[k].1.len()
                    == s[k].1.len() by {
                    if k != i {
                        assert(self@[k] == pairs_view(before)[k]);
                    }
                }
                assert forall|k: int| i + 1 <= k < s.len() implies (#[trigger] self@[k]) == s[k] by {
                    assert(self@[k] == pairs_view(before)[k]);
                }
                assert(self@.take(i as int + 1).drop_last() =~= self@.take(i as int)) by {
                    assert forall|k: int| 0 <= k < i implies self@[k] == pairs_view(before)[k] by {}
                }
                assert(self@.take(i as int + 1).last() == self@[i as int]);
                assert(self@.take(i as int) =~= sv.take(i as int)) by {
                    assert forall|k: int| 0 <= k < i implies self@[k] == sv[k] by {}
                }
                assert(flatten(self@.take(i as int + 1)) == flatten(self@.take(i as int)) + self@[i as int].1);
                assert(self@[i as int].1 == want.subrange(c as int, c + n));
                assert(want.take(c as int) + want.subrange(c as int, c + n) =~= want.take(c + n));
            }
            c = c + n;
            i = i + 1;
        }
        proof {
            assert(s.take(s.len() as int) =~= s);
            assert(self@.take(s.len() as int) =~= self@);
            assert(want.take(c as int) =~= want);
            assert forall|a: int, b: int| 0 <= a < b < self@.len() implies device_lt(self@[a].0, self@[b].0) by {}
        }
    }

    /// Takes the open descriptors out, device after device, leaving only
    /// their numbers behind.
    pub fn extract_active_fds(&mut self) -> (r: Vec<SerializableFd>)
        requires
            old(self).wf(),
        ensures
            final(self).wf(),
            r@ == flatten(old(self)@).filter(|f: SerializableFd| f is Active),
            same_shape(final(self)@, old(self)@),
            flatten(final(self)@) == flatten(old(self)@).map_values(|f: SerializableFd| SerializableFd::Serialized(fd_raw(f))),
    {
        let ghost s = self@;
        let mut out: Vec<SerializableFd> = Vec::new();
        let mut i: usize = 0;
        assert(s.take(0) =~= Seq::<(FdDeviceSpec, Seq<SerializableFd>)>::empty());
        assert(self@.take(0) =~= Seq::<(FdDeviceSpec, Seq<SerializableFd>)>::empty());
        while i < self.fd_map.len()
            invariant
                s.len() == self@.len(),
                self@.len() == self.fd_map@.len(),
                i <= s.len(),
                keys_sorted(s),
                forall|k: int| 0 <= k < s.len() ==> (#[trigger] self@[k]).0 == s[k].0 && self@[k].1.len() == s[k].1.len(),
                forall|k: int| i <= k < s.len() ==> (#[trigger] self@[k]) == s[k],
                out@ == flatten(s.take(i as int)).filter(|f: SerializableFd| f is Active),
                flatten(self@.take(i as int)) == flatten(s.take(i as int)).map_values(
                    |f: SerializableFd| SerializableFd::Serialized(fd_raw(f)),
                ),
            decreases s.len() - i,
        {
            proof {
                assert(s.take(i as int + 1).drop_last() =~= s.take(i as int));
                assert(s.take(i as int + 1).last() == s[i as int]);
            }
            let ghost before = self.fd_map@;
            let ghost sv = self@;
            let ghost cur = s[i as int].1;
            assert(pairs_view(before)[i as int] == s[i as int]);
            assert(before[i as int].1@ == cur);
            let mut fds: Vec<SerializableFd> = Vec::new();
            std::mem::swap(&mut fds, &mut self.fd_map[i].1);
            assert(fds@ == cur);
            let ghost out0 = out@;
            let mut j: usize = 0;
            assert(cur.take(0) =~= Seq::<SerializableFd>::empty());
            while j < fds.len()
                invariant
                    fds@.len() == cur.len(),
                    j <= fds@.len(),
                    forall|k: int| j <= k < cur.len() ==> fds@[k] == cur[k],
                    fds@.take(j as int) == cur.take(j as int).map_values(|f: SerializableFd| SerializableFd::Serialized(fd_raw(f))),
                    out@ == out0 + cur.take(j as int).filter(|f: SerializableFd| f is Active),
                decreases fds@.len() - j,
            {
                let ghost fb = fds@;
                let x = fds[j];
                if let SerializableFd::Active(raw) = x {
                    out.push(SerializableFd::Active(raw));
                }
                fds.set(j, SerializableFd::Serialized(x.raw()));
                proof {
                    assert(cur.take(j as int + 1).drop_last() =~= cur.take(j as int));
                    assert(cur.take(j as int + 1).last() == x);
                    reveal(Seq::filter);
                    assert(fds@ == fb.update(j as int, SerializableFd::Serialized(fd_raw(x))));
                    assert forall|k: int| 0 <= k < j + 1 implies #[trigger] fds@.take(j as int + 1)[k] == cur.take(
                        j as int + 1,
                    ).map_values(|f: SerializableFd| SerializableFd::Serialized(fd_raw(f)))[k] by {
                        if k < j {
                            assert(fb.take(j as int)[k] == fb[k]);
                        }
                    }
                    assert(fds@.take(j as int + 1) =~= cur.take(j as int + 1).map_values(
                        |f: SerializableFd| SerializableFd::Serialized(fd_raw(f)),
                    ));
                    if x is Active {
                        assert(out@ =~= out0 + cur.take(j as int + 1).filter(|f: SerializableFd| f is Active));
                    } else {
                        assert(out@ =~= out0 + cur.take(j as int + 1).filter(|f: SerializableFd| f is Active));
                    }
                }
                j = j + 1;
            }
            proof {
                assert(cur.take(cur.len() as int) =~= cur);
                assert(fds@.take(fds@.len() as int) =~= fds@);
            }
            let ghost fin = fds@;
            std::mem::swap(&mut fds, &mut self.fd_map[i].1);
            proof {
                assert(self@[i as int].1 == fin);
                assert forall|k: int| 0 <= k < s.len() && k != i implies self.fd_map@[k] == before[k] by {}
                assert(self.fd_map@[i as int].0 == before[i as int].0);
                assert forall|k: int| 0 <= k < s.len() implies (#[trigger] self@[k]).0 == s[k].0 && self@[k].1.len()
                    == s[k].1.len() by {
                    if k != i {
                        assert(self@[k] == pairs_view(before)[k]);
                    }
                }
                assert forall|k: int| i + 1 <= k < s.len() implies (#[trigger] self@[k]) == s[k] by {
                    assert(self@[k] == pairs_view(before)[k]);
                }
                assert(self@.take(i as int + 1).drop_last() =~= self@.take(i as int)) by {
                    assert forall|k: int| 0 <= k < i implies self@[k] == pairs_view(before)[k] by {}
                }
                assert(self@.take(i as int + 1).last() == self@[i as int]);
                let f0 = flatten(s.take(i as int));
                assert(flatten(s.take(i as int + 1)) == f0 + cur);
                assert((f0 + cur).filter(|f: SerializableFd| f is Active) == f0.filter(|f: SerializableFd| f is Active) + cur.filter(
                    |f: SerializableFd| f is Active,
                )) by {
                    Seq::filter_distributes_over_add(f0, cur, |f: SerializableFd| f is Active);
                }
                assert((f0 + cur).map_values(|f: SerializableFd| SerializableFd::Serialized(fd_raw(f))) =~= f0.map_values(
                    |f: SerializableFd| SerializableFd::Serialized(fd_raw(f)),
                ) + cur.map_values(|f: SerializableFd| SerializableFd::Serialized(fd_raw(f))));
                assert(self@.take(i as int) =~= sv.take(i as int)) by {
                    assert forall|k: int| 0 <= k < i implies self@[k] == sv[k] by {}
                }
                assert(self@.take(i as int + 1).drop_last() =~= self@.take(i as int));
                assert(self@.take(i as int + 1).last() == self@[i as int]);
                assert(flatten(self@.take(i as int + 1)) == flatten(self@.take(i as int)) + self@[i as int].1);
            }
            i = i + 1;
        }
        proof {
            assert(s.take(s.len() as int) =~= s);
            assert(self@.take(s.len() as int) =~= self@);
            assert forall|a: int, b: int| 0 <= a < b < self@.len() implies device_lt(self@[a].0, self@[b].0) by {}
        }
        out
    }
}

proof fn lemma_flatten_len_same_shape(a: Seq<(FdDeviceSpec, Seq<SerializableFd>)>, b: Seq<(FdDeviceSpec, Seq<SerializableFd>)>)
    requires
        same_shape(a, b),
    ensures
        flatten(a).len() == flatten(b).len(),
    decreases a.len(),
{
    if a.len() > 0 {
        assert(same_shape(a.drop_last(), b.drop_last())) by {
            assert forall|i: int| 0 <= i < a.drop_last().len() implies (#[trigger] a.drop_last()[i]).0
                == b.drop_last()[i].0 && a.drop_last()[i].1.len() == b.drop_last()[i].1.len() by {
                assert(a.drop_last()[i] == a[i]);
            }
        }
        lemma_flatten_len_same_shape(a.drop_last(), b.drop_last());
        assert(a.last() == a[a.len() - 1]);
    }
}

proof fn lemma_same_shape_flatten_eq(a: Seq<(FdDeviceSpec, Seq<SerializableFd>)>, b: Seq<(FdDeviceSpec, Seq<SerializableFd>)>)
    requires
        same_shape(a, b),
        flatten(a) == flatten(b),
    ensures
        a == b,
    decreases a.len(),
{
    if a.len() == 0 {
        assert(a =~= b);
    } else {
        let (ad, bd) = (a.drop_last(), b.drop_last());
        assert(same_shape(ad, bd)) by {
            assert forall|i: int| 0 <= i < ad.len() implies (#[trigger] ad[i]).0 == bd[i].0 && ad[i].1.len()
                == bd[i].1.len() by {
                assert(ad[i] == a[i]);
            }
        }
        lemma_flatten_len_same_shape(ad, bd);
        assert(a.last() == a[a.len() - 1]);
        let n = flatten(ad).len();
        assert(flatten(ad) =~= flatten(a).subrange(0, n as int));
        assert(flatten(bd) =~= flatten(b).subrange(0, n as int));
        assert(a.last().1 =~= flatten(a).subrange(n as int, flatten(a).len() as int));
        assert(b.last().1 =~= flatten(b).subrange(n as int, flatten(b).len() as int));
        lemma_same_shape_flatten_eq(ad, bd);
        assert(a =~= ad.push(a.last()));
        assert(b =~= bd.push(b.last()));
    }
}

proof fn lemma_filter_keeps_all(x: Seq<SerializableFd>)
    requires
        forall|k: int| 0 <= k < x.len() ==> (#[trigger] x[k]) is Active,
    ensures
        x.filter(|f: SerializableFd| f is Active) == x,
    decreases x.len(),
{
    reveal(Seq::filter);
    if x.len() > 0 {
        let d = x.drop_last();
        assert forall|k: int| 0 <= k < d.len() implies (#[trigger] d[k]) is Active by {
            assert(d[k] == x[k]);
        }
        lemma_filter_keeps_all(d);
        assert(x.last() == x[x.len() - 1]);
        assert(x =~= d.push(x.last()));
    }
}

/// Taking the open descriptors out of a map whose descriptors are all open
/// (leaving the map `t`), then handing their numbers back, gives the map
/// back: `u` is `s` again.
pub proof fn lemma_extract_then_update(
    s: Seq<(FdDeviceSpec, Seq<SerializableFd>)>,
    extracted: Seq<SerializableFd>,
    t: Seq<(FdDeviceSpec, Seq<SerializableFd>)>,
    u: Seq<(FdDeviceSpec, Seq<SerializableFd>)>,
)
    requires
        forall|k: int| 0 <= k < flatten(s).len() ==> (#[trigger] flatten(s)[k]) is Active,
        extracted == flatten(s).filter(|f: SerializableFd| f is Active),
        same_shape(t, s),
        same_shape(u, t),
        flatten(u) == Seq::new(
            extracted.len(),
            |k: int| SerializableFd::Active(extracted.map_values(|f: SerializableFd| fd_raw(f))[k]),
        ),
    ensures
        u == s,
{
    lemma_filter_keeps_all(flatten(s));
    assert(same_shape(u, s)) by {
        assert forall|i: int| 0 <= i < u.len() implies (#[trigger] u[i]).0 == s[i].0 && u[i].1.len()
            == s[i].1.len() by {
            assert(t[i].0 == s[i].0);
        }
    }
    assert(flatten(u) =~= flatten(s)) by {
        assert forall|k: int| 0 <= k < flatten(s).len() implies flatten(u)[k] == flatten(s)[k] by {
            assert(flatten(s)[k] is Active);
        }
    }
    lemma_same_shape_flatten_eq(u, s);
}

} // verus!
