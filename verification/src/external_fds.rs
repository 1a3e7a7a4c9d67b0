//! File descriptors handed to the VMM from outside (by the command line, or
//! by the API together with an `SCM_RIGHTS` message), and how they are
//! matched to the devices of a VM configuration.
use vstd::prelude::*;

use crate::api::vm_restore::{as_fds, fds_of};
use crate::values::{intlist_value, pair_views, parse_intlist, parse_tuple_pairs, tuple_pairs};
use crate::text::{
    chars_eq, chars_eq_str, chars_lt, chars_of, find_char, index_of, lemma_index_of, lemma_index_of_char, lemma_index_of_none,
    lemma_seq_lt_asymmetric, lemma_seq_lt_irreflexive, lemma_seq_lt_total, lemma_seq_lt_transitive,
    seq_lt, slice_chars, string_from, string_of,
};

verus! {

/// The operation that brings the file descriptors.
#[derive(Clone, Copy, Debug, PartialEq, Eq, PartialOrd, Ord, Structural)]
pub enum ExternalFdOperation {
    Restore,
    ReceiveMigration,
    VmCreate,
}

/// A resource that one or more file descriptors back.
#[derive(Clone, Debug, PartialEq, Eq, PartialOrd, Ord)]
pub enum ExternalFdTarget {
    Net { id: String },
    Vfio { id: String },
    Iommu,
}

pub enum TargetSpec {
    Net(Seq<char>),
    Vfio(Seq<char>),
    Iommu,
}

impl View for ExternalFdTarget {
    type V = TargetSpec;

    open spec fn view(&self) -> TargetSpec {
        match self {
            ExternalFdTarget::Net { id } => TargetSpec::Net(id@),
            ExternalFdTarget::Vfio { id } => TargetSpec::Vfio(id@),
            ExternalFdTarget::Iommu => TargetSpec::Iommu,
        }
    }
}

// ---------------------------------------------------------------------------
// The order of targets
// ---------------------------------------------------------------------------

pub open spec fn target_rank(t: TargetSpec) -> int {
    match t {
        TargetSpec::Net(_) => 0,
        TargetSpec::Vfio(_) => 1,
        TargetSpec::Iommu => 2,
    }
}

/// The order of targets: by kind (net, VFIO, IOMMU), then by id.
pub open spec fn target_lt(a: TargetSpec, b: TargetSpec) -> bool {
    if target_rank(a) != target_rank(b) {
        target_rank(a) < target_rank(b)
    } else {
        match (a, b) {
            (TargetSpec::Net(x), TargetSpec::Net(y)) => seq_lt(x, y),
            (TargetSpec::Vfio(x), TargetSpec::Vfio(y)) => seq_lt(x, y),
            _ => false,
        }
    }
}

pub proof fn lemma_target_lt_irreflexive(a: TargetSpec)
    ensures
        !target_lt(a, a),
{
    match a {
        TargetSpec::Net(x) => lemma_seq_lt_irreflexive(x),
        TargetSpec::Vfio(x) => lemma_seq_lt_irreflexive(x),
        TargetSpec::Iommu => {},
    }
}

pub proof fn lemma_target_lt_transitive(a: TargetSpec, b: TargetSpec, c: TargetSpec)
    requires
        target_lt(a, b),
        target_lt(b, c),
    ensures
        target_lt(a, c),
{
    match (a, b, c) {
        (TargetSpec::Net(x), TargetSpec::Net(y), TargetSpec::Net(z)) => lemma_seq_lt_transitive(x, y, z),
        (TargetSpec::Vfio(x), TargetSpec::Vfio(y), TargetSpec::Vfio(z)) => lemma_seq_lt_transitive(x, y, z),
        _ => {},
    }
}

pub proof fn lemma_target_lt_total(a: TargetSpec, b: TargetSpec)
    requires
        a != b,
    ensures
        target_lt(a, b) || target_lt(b, a),
{
    match (a, b) {
        (TargetSpec::Net(x), TargetSpec::Net(y)) => lemma_seq_lt_total(x, y),
        (TargetSpec::Vfio(x), TargetSpec::Vfio(y)) => lemma_seq_lt_total(x, y),
        _ => {},
    }
}

/// Equality of two targets.
pub fn target_eq(a: &ExternalFdTarget, b: &ExternalFdTarget) -> (r: bool)
    ensures
        r == (a@ == b@),
{
    match (a, b) {
        (ExternalFdTarget::Net { id: x }, ExternalFdTarget::Net { id: y }) => {
            let xv = chars_of(x.as_str());
            let yv = chars_of(y.as_str());
            chars_eq(&xv, &yv)
        },
        (ExternalFdTarget::Vfio { id: x }, ExternalFdTarget::Vfio { id: y }) => {
            let xv = chars_of(x.as_str());
            let yv = chars_of(y.as_str());
            chars_eq(&xv, &yv)
        },
        (ExternalFdTarget::Iommu, ExternalFdTarget::Iommu) => true,
        _ => false,
    }
}

fn target_rank_of(a: &ExternalFdTarget) -> (r: u8)
    ensures
        r as int == target_rank(a@),
{
    match a {
        ExternalFdTarget::Net { .. } => 0,
        ExternalFdTarget::Vfio { .. } => 1,
        ExternalFdTarget::Iommu => 2,
    }
}

/// Whether `a` comes before `b`.
pub fn target_less(a: &ExternalFdTarget, b: &ExternalFdTarget) -> (r: bool)
    ensures
        r == target_lt(a@, b@),
{
    let ra = target_rank_of(a);
    let rb = target_rank_of(b);
    if ra != rb {
        return ra < rb;
    }
    match (a, b) {
        (ExternalFdTarget::Net { id: x }, ExternalFdTarget::Net { id: y }) => {
            let xv = chars_of(x.as_str());
            let yv = chars_of(y.as_str());
            chars_lt(&xv, &yv)
        },
        (ExternalFdTarget::Vfio { id: x }, ExternalFdTarget::Vfio { id: y }) => {
            let xv = chars_of(x.as_str());
            let yv = chars_of(y.as_str());
            chars_lt(&xv, &yv)
        },
        _ => false,
    }
}

/// A copy of the target.
pub fn copy_target(t: &ExternalFdTarget) -> (r: ExternalFdTarget)
    ensures
        r@ == t@,
{
    match t {
        ExternalFdTarget::Net { id } => ExternalFdTarget::Net { id: string_from(id.as_str()) },
        ExternalFdTarget::Vfio { id } => ExternalFdTarget::Vfio { id: string_from(id.as_str()) },
        ExternalFdTarget::Iommu => ExternalFdTarget::Iommu,
    }
}

// ---------------------------------------------------------------------------
// Parsing targets
// ---------------------------------------------------------------------------

/// Why a target does not parse; the field is the whole input.
#[derive(Debug, PartialEq, Eq)]
pub enum ParseExternalFdTargetError {
    InvalidValue(String),
    EmptyIdent(String),
}

pub enum ParseTargetErrSpec {
    InvalidValue(Seq<char>),
    EmptyIdent(Seq<char>),
}

impl View for ParseExternalFdTargetError {
    type V = ParseTargetErrSpec;

    open spec fn view(&self) -> ParseTargetErrSpec {
        match self {
            ParseExternalFdTargetError::InvalidValue(s) => ParseTargetErrSpec::InvalidValue(s@),
            ParseExternalFdTargetError::EmptyIdent(s) => ParseTargetErrSpec::EmptyIdent(s@),
        }
    }
}

/// The text before the first `(` of `s`, and the text after it (empty when
/// there is no `(`).
pub open spec fn ident_and_rest(s: Seq<char>) -> (Seq<char>, Seq<char>) {
    match index_of(s, '(') {
        Some(i) => (s.subrange(0, i), s.subrange(i + 1, s.len() as int)),
        None => (s, Seq::empty()),
    }
}

/// The id of `<id>)`: the text before the first `)`, which must end `rest`.
pub open spec fn id_of(rest: Seq<char>, s: Seq<char>) -> Result<Seq<char>, ParseTargetErrSpec> {
    match index_of(rest, ')') {
        Some(j) => if j == rest.len() - 1 {
            if j == 0 {
                Err(ParseTargetErrSpec::EmptyIdent(s))
            } else {
                Ok(rest.subrange(0, j))
            }
        } else {
            Err(ParseTargetErrSpec::InvalidValue(s))
        },
        None => Err(ParseTargetErrSpec::InvalidValue(s)),
    }
}

/// The target that `s` names: `net(<id>)`, `vfio(<id>)` or `iommu`.
pub open spec fn target_value(s: Seq<char>) -> Result<TargetSpec, ParseTargetErrSpec> {
    let (ident, rest) = ident_and_rest(s);
    if ident == "net"@ {
        match id_of(rest, s) {
            Ok(id) => Ok(TargetSpec::Net(id)),
            Err(e) => Err(e),
        }
    } else if ident == "vfio"@ {
        match id_of(rest, s) {
            Ok(id) => Ok(TargetSpec::Vfio(id)),
            Err(e) => Err(e),
        }
    } else if ident == "iommu"@ {
        if rest.len() == 0 {
            Ok(TargetSpec::Iommu)
        } else {
            Err(ParseTargetErrSpec::InvalidValue(s))
        }
    } else {
        Err(ParseTargetErrSpec::InvalidValue(s))
    }
}

proof fn lemma_named_target(kind: Seq<char>, id: Seq<char>)
    requires
        forall|j: int| 0 <= j < kind.len() ==> kind[j] != '(',
        id.len() > 0,
        forall|j: int| 0 <= j < id.len() ==> id[j] != ')',
    ensures
        ident_and_rest(kind + "("@ + id + ")"@) == (kind, id + ")"@),
        id_of(id + ")"@, kind + "("@ + id + ")"@) == Ok::<Seq<char>, ParseTargetErrSpec>(id),
{
    reveal_strlit("(");
    reveal_strlit(")");
    let s = kind + "("@ + id + ")"@;
    assert(s[kind.len() as int] == '(');
    assert forall|j: int| 0 <= j < kind.len() implies s[j] != '(' by {
        assert(s[j] == kind[j]);
    }
    lemma_index_of_char(s, '(', kind.len() as int);
    assert(s.subrange(0, kind.len() as int) =~= kind);
    assert(s.subrange(kind.len() as int + 1, s.len() as int) =~= id + ")"@);
    let r = id + ")"@;
    assert(r[id.len() as int] == ')');
    assert forall|j: int| 0 <= j < id.len() implies r[j] != ')' by {
        assert(r[j] == id[j]);
    }
    lemma_index_of_char(r, ')', id.len() as int);
    assert(r.subrange(0, id.len() as int) =~= id);
}

/// The names of targets read back: `net(<id>)` names the net target and
/// `vfio(<id>)` the VFIO target of any non-empty id without `)`, and
/// `iommu` names the IOMMU target.
pub proof fn lemma_target_names(id: Seq<char>)
    requires
        id.len() > 0,
        forall|j: int| 0 <= j < id.len() ==> id[j] != ')',
    ensures
        target_value("net("@ + id + ")"@) == Ok::<TargetSpec, ParseTargetErrSpec>(TargetSpec::Net(id)),
        target_value("vfio("@ + id + ")"@) == Ok::<TargetSpec, ParseTargetErrSpec>(TargetSpec::Vfio(id)),
        target_value("iommu"@) == Ok::<TargetSpec, ParseTargetErrSpec>(TargetSpec::Iommu),
{
    reveal_strlit("net(");
    reveal_strlit("vfio(");
    reveal_strlit("net");
    reveal_strlit("vfio");
    reveal_strlit("iommu");
    reveal_strlit("(");
    assert("net("@ =~= "net"@ + "("@);
    assert("vfio("@ =~= "vfio"@ + "("@);
    lemma_named_target("net"@, id);
    lemma_named_target("vfio"@, id);
    assert("net"@ != "vfio"@);
    lemma_index_of_none("iommu"@, '(');
}

fn parse_id(rest: &Vec<char>, s: &str) -> (r: Result<String, ParseExternalFdTargetError>)
    ensures
        match id_of(rest@, s@) {
            Ok(id) => r matches Ok(x) && x@ == id,
            Err(e) => r matches Err(x) && x@ == e,
        },
{
    match find_char(rest, ')') {
        Some(j) => {
            if j == rest.len() - 1 {
                if j == 0 {
                    Err(ParseExternalFdTargetError::EmptyIdent(string_from(s)))
                } else {
                    let id = slice_chars(rest, 0, j);
                    Ok(string_of(&id))
                }
            } else {
                Err(ParseExternalFdTargetError::InvalidValue(string_from(s)))
            }
        },
        None => Err(ParseExternalFdTargetError::InvalidValue(string_from(s))),
    }
}

pub open spec fn target_rview(r: Result<ExternalFdTarget, ParseExternalFdTargetError>) -> Result<TargetSpec, ParseTargetErrSpec> {
    match r {
        Ok(t) => Ok(t@),
        Err(e) => Err(e@),
    }
}

impl ExternalFdTarget {
    pub fn from_str(s: &str) -> (r: Result<Self, ParseExternalFdTargetError>)
        ensures
            target_rview(r) == target_value(s@),
    {
        let v = chars_of(s);
        let n = v.len();
        let (ident, rest) = match find_char(&v, '(') {
            Some(i) => (slice_chars(&v, 0, i), slice_chars(&v, i + 1, n)),
            None => (v.clone(), Vec::new()),
        };
        assert(ident@ == ident_and_rest(s@).0 && rest@ == ident_and_rest(s@).1) by {
            if index_of(s@, '(') is None {
                assert(v@ == s@);
                assert(rest@ =~= Seq::<char>::empty());
            }
        }
        if chars_eq_str(&ident, "net") {
            match parse_id(&rest, s) {
                Ok(id) => Ok(ExternalFdTarget::Net { id }),
                Err(e) => Err(e),
            }
        } else if chars_eq_str(&ident, "vfio") {
            match parse_id(&rest, s) {
                Ok(id) => Ok(ExternalFdTarget::Vfio { id }),
                Err(e) => Err(e),
            }
        } else if chars_eq_str(&ident, "iommu") {
            if rest.len() == 0 {
                Ok(ExternalFdTarget::Iommu)
            } else {
                Err(ParseExternalFdTargetError::InvalidValue(string_from(s)))
            }
        } else {
            Err(ParseExternalFdTargetError::InvalidValue(string_from(s)))
        }
    }
}

} // verus!

verus! {

// ---------------------------------------------------------------------------
// Entries
// ---------------------------------------------------------------------------

/// How many file descriptors a target expects, and those it received.
#[derive(Debug, PartialEq, Eq)]
pub struct ExternalFdsEntry {
    pub target: ExternalFdTarget,
    pub expected_fds: usize,
    pub received_fds: Vec<i32>,
}

pub struct EntrySpec {
    pub target: TargetSpec,
    pub expected: usize,
    pub received: Seq<i32>,
}

impl View for ExternalFdsEntry {
    type V = EntrySpec;

    open spec fn view(&self) -> EntrySpec {
        EntrySpec { target: self.target@, expected: self.expected_fds, received: self.received_fds@ }
    }
}

/// Why the file descriptors of an `SCM_RIGHTS` message do not fit.
#[derive(Clone, Copy, Debug, PartialEq, Eq, Structural)]
pub enum IngestScmRightsError {
    /// Fewer file descriptors than expected.
    TooLittleFds,
    /// More file descriptors than expected.
    TooManyFds,
}

/// The descriptors that are not -1.
pub open spec fn valid_fds(s: Seq<i32>) -> Seq<i32> {
    s.filter(|fd: i32| fd != -1)
}

fn keep_valid(fds: &Vec<i32>) -> (r: Vec<i32>)
    ensures
        r@ == valid_fds(fds@),
{
    let mut r: Vec<i32> = Vec::new();
    let mut i: usize = 0;
    while i < fds.len()
        invariant
            i <= fds@.len(),
            r@ == valid_fds(fds@.subrange(0, i as int)),
        decreases fds@.len() - i,
    {
        let ghost pre = fds@.subrange(0, i as int + 1);
        assert(pre.drop_last() =~= fds@.subrange(0, i as int));
        if fds[i] != -1 {
            r.push(fds[i]);
        }
        assert(r@ =~= valid_fds(pre)) by {
            reveal(Seq::filter);
        }
        i = i + 1;
    }
    assert(fds@.subrange(0, fds@.len() as int) =~= fds@);
    r
}

impl ExternalFdsEntry {
    /// A target that expects the given descriptors, and has received them.
    pub fn new(target: ExternalFdTarget, files: Vec<i32>) -> (r: Self)
        ensures
            r@ == (EntrySpec { target: target@, expected: files@.len() as usize, received: files@ }),
    {
        let n = files.len();
        ExternalFdsEntry { target, expected_fds: n, received_fds: files }
    }

    /// Takes the expected number of descriptors from the front of `files`.
    pub fn update_from_scm_rights(&mut self, files: &mut Vec<i32>) -> (r: Result<(), IngestScmRightsError>)
        ensures
            old(self).expected_fds <= old(files)@.len() ==> r is Ok && final(self)@ == (EntrySpec {
                received: old(files)@.take(old(self).expected_fds as int),
                ..old(self)@
            }) && final(files)@ == old(files)@.skip(old(self).expected_fds as int),
            old(self).expected_fds > old(files)@.len() ==> r == Err::<(), IngestScmRightsError>(
                IngestScmRightsError::TooLittleFds,
            ) && *final(self) == *old(self) && final(files)@ == old(files)@,
    {
        if self.expected_fds <= files.len() {
            let mut taken = files.split_off(self.expected_fds);
            std::mem::swap(files, &mut taken);
            self.received_fds = taken;
            Ok(())
        } else {
            Err(IngestScmRightsError::TooLittleFds)
        }
    }

    /// Takes all received descriptors out of the entry.
    pub fn take_fds(&mut self) -> (r: Vec<i32>)
        ensures
            r@ == old(self)@.received,
            final(self)@ == (EntrySpec { received: Seq::empty(), ..old(self)@ }),
    {
        let mut out: Vec<i32> = Vec::new();
        std::mem::swap(&mut out, &mut self.received_fds);
        out
    }

    /// The received descriptors.
    pub fn fds(&self) -> (r: &Vec<i32>)
        ensures
            r@ == self@.received,
    {
        &self.received_fds
    }

    /// The entry of a net device of a restore: the descriptors that are not -1.
    pub fn from_restored_net(value: crate::api::vm_restore::RestoredNetConfig) -> (r: Self)
        ensures
            r@ == restored_net_entry(value@),
    {
        let received_fds = match &value.fds {
            Some(f) => keep_valid(f),
            None => Vec::new(),
        };
        ExternalFdsEntry { target: ExternalFdTarget::Net { id: value.id }, expected_fds: value.num_fds, received_fds }
    }

    /// The entry of a VFIO device of a restore: one descriptor, unless it is -1.
    pub fn from_restored_vfio(value: crate::api::vm_restore::RestoredVfioConfig) -> (r: Self)
        ensures
            r@ == restored_vfio_entry(value.id@, value.fd),
    {
        let mut received_fds: Vec<i32> = Vec::new();
        if let Some(fd) = value.fd {
            if fd != -1 {
                received_fds.push(fd);
                assert(received_fds@ =~= seq![fd]);
            }
        }
        ExternalFdsEntry { target: ExternalFdTarget::Vfio { id: value.id }, expected_fds: 1, received_fds }
    }
}

} // verus!

verus! {

// ---------------------------------------------------------------------------
// The list of entries
// ---------------------------------------------------------------------------

/// The file descriptors provided by the API or the command line, one entry
/// per target.
#[derive(Debug, Default, PartialEq, Eq)]
pub struct ExternalFds {
    pub external_fds: Vec<ExternalFdsEntry>,
}

pub open spec fn entries_view(v: Seq<ExternalFdsEntry>) -> Seq<EntrySpec> {
    Seq::new(v.len(), |i: int| v[i]@)
}

impl View for ExternalFds {
    type V = Seq<EntrySpec>;

    open spec fn view(&self) -> Seq<EntrySpec> {
        entries_view(self.external_fds@)
    }
}

/// Index of the first entry of `x` for target `t`.
pub open spec fn position_of(x: Seq<EntrySpec>, t: TargetSpec) -> Option<int>
    decreases x.len(),
{
    if x.len() == 0 {
        None
    } else if x[0].target == t {
        Some(0)
    } else {
        match position_of(x.drop_first(), t) {
            Some(i) => Some(i + 1),
            None => None,
        }
    }
}

pub proof fn lemma_position_of(x: Seq<EntrySpec>, t: TargetSpec)
    ensures
        match position_of(x, t) {
            Some(i) => 0 <= i < x.len() && x[i].target == t && forall|j: int| 0 <= j < i ==> x[j].target != t,
            None => forall|j: int| 0 <= j < x.len() ==> x[j].target != t,
        },
    decreases x.len(),
{
    if x.len() > 0 && x[0].target != t {
        lemma_position_of(x.drop_first(), t);
        assert forall|j: int| 1 <= j < x.len() implies x[j] == x.drop_first()[j - 1] by {}
    }
}

/// The first entry of `x` for target `t`.
pub open spec fn find_entry(x: Seq<EntrySpec>, t: TargetSpec) -> Option<EntrySpec> {
    match position_of(x, t) {
        Some(i) => Some(x[i]),
        None => None,
    }
}

/// The received descriptors of all entries, in order.
pub open spec fn all_received(x: Seq<EntrySpec>) -> Seq<i32>
    decreases x.len(),
{
    if x.len() == 0 {
        Seq::empty()
    } else {
        all_received(x.drop_last()) + x.last().received
    }
}

/// The entries with their received descriptors taken out.
pub open spec fn emptied(x: Seq<EntrySpec>) -> Seq<EntrySpec> {
    Seq::new(x.len(), |i: int| EntrySpec { received: Seq::empty(), ..x[i] })
}

/// The entry of a net device of a restore.
pub open spec fn restored_net_entry(r: crate::api::vm_restore::RestoredNetConfigSpec) -> EntrySpec {
    EntrySpec {
        target: TargetSpec::Net(r.id),
        expected: r.num_fds,
        received: match r.fds {
            Some(f) => valid_fds(f),
            None => Seq::empty(),
        },
    }
}

/// The entry of a VFIO device of a restore.
pub open spec fn restored_vfio_entry(id: Seq<char>, fd: Option<i32>) -> EntrySpec {
    EntrySpec {
        target: TargetSpec::Vfio(id),
        expected: 1,
        received: match fd {
            Some(fd) => if fd != -1 {
                seq![fd]
            } else {
                Seq::empty()
            },
            None => Seq::empty(),
        },
    }
}

/// The entries once the IOMMU descriptor of a restore, if any, is put in
/// front.
pub open spec fn iommu_imported(x: Seq<EntrySpec>, iommufd_fd: Option<i32>) -> Seq<EntrySpec> {
    match iommufd_fd {
        Some(fd) => x.insert(
            0,
            EntrySpec {
                target: TargetSpec::Iommu,
                expected: 1,
                received: if fd == -1 {
                    Seq::empty()
                } else {
                    seq![fd]
                },
            },
        ),
        None => x,
    }
}

/// The entries once the VFIO devices of a restore, if any, are put in front.
pub open spec fn vfio_imported(
    x: Seq<EntrySpec>,
    configs: Option<Vec<crate::api::vm_restore::RestoredVfioConfig>>,
) -> Seq<EntrySpec> {
    match configs {
        Some(l) => Seq::new(l@.len(), |i: int| restored_vfio_entry(l@[i].id@, l@[i].fd)) + x,
        None => x,
    }
}

/// The entries once the net devices of a restore, if any, are put in front.
pub open spec fn net_imported(
    x: Seq<EntrySpec>,
    configs: Option<Vec<crate::api::vm_restore::RestoredNetConfig>>,
) -> Seq<EntrySpec> {
    match configs {
        Some(l) => Seq::new(l@.len(), |i: int| restored_net_entry(l@[i]@)) + x,
        None => x,
    }
}

/// The entries after an `SCM_RIGHTS` message brought `f`: each entry in turn
/// takes as many descriptors as it expects from the front. It stops at the
/// first entry that finds too few; descriptors left over are too many.
pub open spec fn ingest(x: Seq<EntrySpec>, f: Seq<i32>) -> (Seq<EntrySpec>, Result<(), IngestScmRightsError>)
    decreases x.len(),
{
    if x.len() == 0 {
        (x, if f.len() == 0 {
            Ok(())
        } else {
            Err(IngestScmRightsError::TooManyFds)
        })
    } else if x[0].expected <= f.len() {
        let rest = ingest(x.drop_first(), f.skip(x[0].expected as int));
        (seq![EntrySpec { received: f.take(x[0].expected as int), ..x[0] }] + rest.0, rest.1)
    } else {
        (x, Err(IngestScmRightsError::TooLittleFds))
    }
}

impl ExternalFds {
    pub fn from_entries(value: Vec<ExternalFdsEntry>) -> (r: Self)
        ensures
            r@ == entries_view(value@),
    {
        ExternalFds { external_fds: value }
    }

    fn position(&self, target: &ExternalFdTarget) -> (r: Option<usize>)
        ensures
            match position_of(self@, target@) {
                Some(i) => r matches Some(x) && x == i && x < self.external_fds@.len(),
                None => r is None,
            },
    {
        let mut i: usize = 0;
        proof {
            lemma_position_of(self@, target@);
        }
        while i < self.external_fds.len()
            invariant
                i <= self@.len(),
                self@.len() == self.external_fds@.len(),
                forall|j: int| 0 <= j < i ==> self@[j].target != target@,
                match position_of(self@, target@) {
                    Some(p) => 0 <= p < self@.len() && self@[p].target == target@ && forall|j: int|
                        0 <= j < p ==> self@[j].target != target@,
                    None => forall|j: int| 0 <= j < self@.len() ==> self@[j].target != target@,
                },
            decreases self@.len() - i,
        {
            if target_eq(&self.external_fds[i].target, target) {
                assert(self@[i as int].target == target@);
                return Some(i);
            }
            i = i + 1;
        }
        None
    }

    /// Takes the first entry of `target` out, if there is one; the last entry
    /// takes its place.
    pub fn take_entry(&mut self, target: &ExternalFdTarget) -> (r: Option<ExternalFdsEntry>)
        ensures
            match position_of(old(self)@, target@) {
                Some(i) => r matches Some(e) && e@ == old(self)@[i] && final(self)@ == old(self)@.update(
                    i,
                    old(self)@.last(),
                ).drop_last(),
                None => r is None && final(self)@ == old(self)@,
            },
    {
        match self.position(target) {
            Some(i) => {
                let ghost old_v = self.external_fds@;
                let e = self.external_fds.swap_remove(i);
                assert(self@ =~= entries_view(old_v).update(i as int, entries_view(old_v).last()).drop_last());
                Some(e)
            },
            None => None,
        }
    }

    /// The first entry of `target`, if there is one.
    pub fn entry(&self, target: &ExternalFdTarget) -> (r: Option<&ExternalFdsEntry>)
        ensures
            match find_entry(self@, target@) {
                Some(e) => r matches Some(x) && x@ == e,
                None => r is None,
            },
    {
        match self.position(target) {
            Some(i) => Some(&self.external_fds[i]),
            None => None,
        }
    }

    /// Takes all received descriptors out, entry by entry, in order, so that
    /// they can be ingested again.
    pub fn take_raw_fds(&mut self) -> (r: Vec<i32>)
        ensures
            r@ == all_received(old(self)@),
            final(self)@ == emptied(old(self)@),
    {
        let ghost x = self@;
        let mut out: Vec<i32> = Vec::new();
        let mut i: usize = 0;
        assert(x.subrange(0, 0) =~= Seq::<EntrySpec>::empty());
        while i < self.external_fds.len()
            invariant
                i <= x.len(),
                self@.len() == x.len(),
                self.external_fds@.len() == x.len(),
                out@ == all_received(x.subrange(0, i as int)),
                forall|j: int| 0 <= j < i ==> self@[j] == (EntrySpec { received: Seq::empty(), ..x[j] }),
                forall|j: int| i <= j < x.len() ==> self@[j] == x[j],
            decreases x.len() - i,
        {
            assert(x.subrange(0, i as int + 1).drop_last() =~= x.subrange(0, i as int));
            let ghost before = self.external_fds@;
            let ghost bv = self@;
            let mut fds = self.external_fds[i].take_fds();
            assert(self.external_fds@ == before.update(i as int, self.external_fds@[i as int]));
            assert(self@[i as int] == (EntrySpec { received: Seq::empty(), ..x[i as int] }));
            assert forall|j: int| 0 <= j < x.len() && j != i implies #[trigger] self@[j] == bv[j] by {}
            out.append(&mut fds);
            i = i + 1;
        }
        assert(x.subrange(0, x.len() as int) =~= x);
        assert(self@ =~= emptied(x));
        out
    }

    /// Whether there are no entries.
    pub fn is_empty(&self) -> (r: bool)
        ensures
            r == (self@.len() == 0),
    {
        self.external_fds.len() == 0
    }

    /// Puts the entries of the restored net devices in front, and leaves
    /// `None` behind.
    pub fn import_restored_net_configs(
        &mut self,
        restored_net_configs: &mut Option<Vec<crate::api::vm_restore::RestoredNetConfig>>,
    )
        ensures
            *final(restored_net_configs) is None,
            final(self)@ == net_imported(old(self)@, *old(restored_net_configs)),
    {
        let mut taken: Option<Vec<crate::api::vm_restore::RestoredNetConfig>> = None;
        std::mem::swap(&mut taken, restored_net_configs);
        if let Some(mut configs) = taken {
            let ghost l = configs@;
            let n = configs.len();
            assert(l.len() == n);
            let mut front: Vec<ExternalFdsEntry> = Vec::new();
            let mut i: usize = 0;
            while configs.len() > 0
                invariant
                    i + configs@.len() == l.len(),
                    l.len() <= usize::MAX,
                    configs@ == l.skip(i as int),
                    entries_view(front@) == Seq::new(i as nat, |k: int| restored_net_entry(l[k]@)),
                decreases configs@.len(),
            {
                let c = configs.remove(0);
                assert(c == l[i as int]);
                let ghost fv = entries_view(front@);
                let e = ExternalFdsEntry::from_restored_net(c);
                let ghost ev = e@;
                front.push(e);
                assert(entries_view(front@) =~= fv.push(ev));
                assert(fv.push(ev) =~= Seq::new(i as nat + 1, |k: int| restored_net_entry(l[k]@)));
                assert(configs@ =~= l.skip(i as int + 1));
                i = i + 1;
            }
            let ghost old_x = self@;
            let ghost fv = entries_view(front@);
            front.append(&mut self.external_fds);
            self.external_fds = front;
            assert(self@ =~= Seq::new(l.len(), |k: int| restored_net_entry(l[k]@)) + old_x);
        }
    }

    /// Puts the entries of the restored VFIO devices in front, and leaves
    /// `None` behind.
    pub fn import_restored_vfio_configs(
        &mut self,
        restored_vfio_configs: &mut Option<Vec<crate::api::vm_restore::RestoredVfioConfig>>,
    )
        ensures
            *final(restored_vfio_configs) is None,
            final(self)@ == vfio_imported(old(self)@, *old(restored_vfio_configs)),
    {
        let mut taken: Option<Vec<crate::api::vm_restore::RestoredVfioConfig>> = None;
        std::mem::swap(&mut taken, restored_vfio_configs);
        if let Some(mut configs) = taken {
            let ghost l = configs@;
            let n = configs.len();
            assert(l.len() == n);
            let mut front: Vec<ExternalFdsEntry> = Vec::new();
            let mut i: usize = 0;
            while configs.len() > 0
                invariant
                    i + configs@.len() == l.len(),
                    l.len() <= usize::MAX,
                    configs@ == l.skip(i as int),
                    entries_view(front@) == Seq::new(i as nat, |k: int| restored_vfio_entry(l[k].id@, l[k].fd)),
                decreases configs@.len(),
            {
                let c = configs.remove(0);
                assert(c == l[i as int]);
                let ghost fv = entries_view(front@);
                let e = ExternalFdsEntry::from_restored_vfio(c);
                let ghost ev = e@;
                front.push(e);
                assert(entries_view(front@) =~= fv.push(ev));
                assert(fv.push(ev) =~= Seq::new(i as nat + 1, |k: int| restored_vfio_entry(l[k].id@, l[k].fd)));
                assert(configs@ =~= l.skip(i as int + 1));
                i = i + 1;
            }
            let ghost old_x = self@;
            front.append(&mut self.external_fds);
            self.external_fds = front;
            assert(self@ =~= Seq::new(l.len(), |k: int| restored_vfio_entry(l[k].id@, l[k].fd)) + old_x);
        }
    }

    /// Puts an entry for the IOMMU descriptor in front, and leaves `None`
    /// behind.
    pub fn import_restored_iommufd_fd(&mut self, iommufd_fd: &mut Option<i32>)
        ensures
            *final(iommufd_fd) is None,
            final(self)@ == iommu_imported(old(self)@, *old(iommufd_fd)),
    {
        let mut taken: Option<i32> = None;
        std::mem::swap(&mut taken, iommufd_fd);
        if let Some(fd) = taken {
            let mut received_fds: Vec<i32> = Vec::new();
            if fd != -1 {
                received_fds.push(fd);
                assert(received_fds@ =~= seq![fd]);
            }
            let entry = ExternalFdsEntry { target: ExternalFdTarget::Iommu, expected_fds: 1, received_fds };
            let ghost old_v = self.external_fds@;
            self.external_fds.insert(0, entry);
            assert(self@ =~= entries_view(old_v).insert(0, entry@));
        }
    }

    /// Hands the descriptors of an `SCM_RIGHTS` message to the entries, in
    /// order.
    pub fn ingest_scm_rights(&mut self, fds: Vec<i32>) -> (r: Result<(), IngestScmRightsError>)
        ensures
            final(self)@ == ingest(old(self)@, fds@).0,
            r == ingest(old(self)@, fds@).1,
    {
        let ghost x = self@;
        let ghost f = fds@;
        let mut files = fds;
        let mut i: usize = 0;
        let ghost mut off: int = 0;
        assert(x.skip(0) =~= x);
        assert(f.skip(0) =~= f);
        while i < self.external_fds.len()
            invariant
                x == old(self)@,
                f == fds@,
                i <= x.len(),
                self.external_fds@.len() == x.len(),
                0 <= off <= f.len(),
                files@ == f.skip(off),
                forall|j: int| i <= j < x.len() ==> self@[j] == x[j],
                ingest(x, f) == ((self@.take(i as int) + ingest(x.skip(i as int), f.skip(off)).0), ingest(
                    x.skip(i as int),
                    f.skip(off),
                ).1),
            decreases x.len() - i,
        {
            let ghost rest = x.skip(i as int);
            let ghost fr = f.skip(off);
            assert(rest[0] == x[i as int]);
            assert(rest.drop_first() =~= x.skip(i as int + 1));
            let ghost before = self.external_fds@;
            let ghost ent = self@[i as int];
            match self.external_fds[i].update_from_scm_rights(&mut files) {
                Ok(()) => {},
                Err(e) => {
                    assert forall|j: int| 0 <= j < x.len() implies self.external_fds@[j] == before[j] by {}
                    assert(self.external_fds@ =~= before);
                    assert(self@ =~= self@.take(i as int) + rest);
                    assert(ingest(rest, fr) == (rest, Err::<(), IngestScmRightsError>(IngestScmRightsError::TooLittleFds)));
                    return Err(e);
                },
            }
            proof {
                assert forall|j: int| 0 <= j < x.len() && j != i implies self.external_fds@[j] == before[j] by {}
                assert(fr.skip(x[i as int].expected as int) =~= f.skip(off + x[i as int].expected));
                assert(self@.take(i as int + 1) =~= self@.take(i as int) + seq![
                    EntrySpec { received: fr.take(x[i as int].expected as int), ..x[i as int] },
                ]);
                off = off + x[i as int].expected;
            }
            i = i + 1;
        }
        assert(self@.take(x.len() as int) =~= self@);
        assert(x.skip(x.len() as int) =~= Seq::<EntrySpec>::empty());
        if files.len() == 0 {
            Ok(())
        } else {
            Err(IngestScmRightsError::TooManyFds)
        }
    }
}

} // verus!

verus! {

proof fn lemma_all_received_prepend(a: EntrySpec, rest: Seq<EntrySpec>)
    ensures
        all_received(seq![a] + rest) == a.received + all_received(rest),
    decreases rest.len(),
{
    if rest.len() == 0 {
        assert(seq![a] + rest =~= seq![a]);
        assert(seq![a].drop_last() =~= Seq::<EntrySpec>::empty());
        assert(all_received(seq![a]) == all_received(seq![a].drop_last()) + a.received);
        assert(a.received + Seq::<i32>::empty() =~= a.received);
        assert(Seq::<i32>::empty() + a.received =~= a.received);
    } else {
        lemma_all_received_prepend(a, rest.drop_last());
        let s = seq![a] + rest;
        assert(s.drop_last() =~= seq![a] + rest.drop_last());
        assert(s.last() == rest.last());
        assert(all_received(s) == all_received(s.drop_last()) + s.last().received);
        assert(all_received(rest) == all_received(rest.drop_last()) + rest.last().received);
        assert((a.received + all_received(rest.drop_last())) + rest.last().received =~= a.received + (all_received(
            rest.drop_last(),
        ) + rest.last().received));
    }
}

/// Every entry holds as many descriptors as it expects.
pub open spec fn filled(x: Seq<EntrySpec>) -> bool {
    forall|i: int| 0 <= i < x.len() ==> (#[trigger] x[i]).received.len() == x[i].expected
}

/// How many descriptors the entries expect in all.
pub open spec fn expected_total(x: Seq<EntrySpec>) -> nat
    decreases x.len(),
{
    if x.len() == 0 {
        0
    } else {
        x[0].expected as nat + expected_total(x.drop_first())
    }
}

/// A message succeeds exactly when it brings as many descriptors as the
/// entries expect in all; with fewer it brings too few, with more too many.
pub proof fn lemma_ingest_counts(x: Seq<EntrySpec>, f: Seq<i32>)
    ensures
        ingest(x, f).1 == if f.len() == expected_total(x) {
            Ok::<(), IngestScmRightsError>(())
        } else if f.len() < expected_total(x) {
            Err(IngestScmRightsError::TooLittleFds)
        } else {
            Err(IngestScmRightsError::TooManyFds)
        },
    decreases x.len(),
{
    if x.len() > 0 && x[0].expected <= f.len() {
        lemma_ingest_counts(x.drop_first(), f.skip(x[0].expected as int));
    }
}

/// A message that fits is shared out in order: the descriptors of the
/// entries, read in order, are those of the message, and each entry holds
/// as many as it expects; targets and expected counts stay.
pub proof fn lemma_ingest_in_order(x: Seq<EntrySpec>, f: Seq<i32>)
    requires
        ingest(x, f).1 is Ok,
    ensures
        all_received(ingest(x, f).0) == f,
        filled(ingest(x, f).0),
        ingest(x, f).0.len() == x.len(),
        forall|i: int|
            0 <= i < x.len() ==> (#[trigger] ingest(x, f).0[i]).target == x[i].target && ingest(x, f).0[i].expected
                == x[i].expected,
    decreases x.len(),
{
    if x.len() > 0 {
        let e = x[0].expected as int;
        let r = ingest(x.drop_first(), f.skip(e));
        lemma_ingest_in_order(x.drop_first(), f.skip(e));
        let head = EntrySpec { received: f.take(e), ..x[0] };
        lemma_all_received_prepend(head, r.0);
        assert(f.take(e) + f.skip(e) =~= f);
        let res = seq![head] + r.0;
        assert forall|i: int| 0 <= i < res.len() implies (#[trigger] res[i]).received.len() == res[i].expected by {
            if i > 0 {
                assert(res[i] == r.0[i - 1]);
            }
        }
        assert forall|i: int| 0 <= i < x.len() implies (#[trigger] res[i]).target == x[i].target && res[i].expected
            == x[i].expected by {
            if i > 0 {
                assert(res[i] == r.0[i - 1]);
                assert(x.drop_first()[i - 1] == x[i]);
            }
        }
    } else {
        assert(all_received(x) =~= f);
    }
}

proof fn lemma_emptied_drop_first(y: Seq<EntrySpec>)
    requires
        y.len() > 0,
    ensures
        emptied(y).drop_first() == emptied(y.drop_first()),
        emptied(y)[0] == (EntrySpec { received: Seq::empty(), ..y[0] }),
{
    assert(emptied(y).drop_first() =~= emptied(y.drop_first()));
}

/// Taking the descriptors out of entries that hold what they expect, and
/// ingesting them again, gives back the same entries.
pub proof fn lemma_take_then_ingest(y: Seq<EntrySpec>)
    requires
        filled(y),
    ensures
        ingest(emptied(y), all_received(y)) == (y, Ok::<(), IngestScmRightsError>(())),
    decreases y.len(),
{
    if y.len() == 0 {
        assert(emptied(y) =~= y);
    } else {
        let rest = y.drop_first();
        assert forall|i: int| 0 <= i < rest.len() implies (#[trigger] rest[i]).received.len() == rest[i].expected by {
            assert(rest[i] == y[i + 1]);
        }
        lemma_take_then_ingest(rest);
        assert(y =~= seq![y[0]] + rest);
        lemma_all_received_prepend(y[0], rest);
        lemma_emptied_drop_first(y);
        let f = all_received(y);
        let e = y[0].expected as int;
        assert(f.take(e) =~= y[0].received);
        assert(f.skip(e) =~= all_received(rest));
        assert(EntrySpec { received: y[0].received, ..emptied(y)[0] } == y[0]);
        assert(seq![y[0]] + rest =~= y);
    }
}

/// The entries of a list of `target@[fds]` pairs, each target expecting the
/// descriptors it is given; nothing when a target or a list is malformed.
pub open spec fn external_fds_of(p: Seq<(Seq<char>, Seq<char>)>) -> Option<Seq<EntrySpec>>
    decreases p.len(),
{
    if p.len() == 0 {
        Some(Seq::empty())
    } else {
        match external_fds_of(p.drop_last()) {
            None => None,
            Some(a) => match (target_value(p.last().0), intlist_value(p.last().1)) {
                (Ok(t), Some(fds)) => Some(a.push(
                    EntrySpec { target: t, expected: fds.len() as usize, received: as_fds(fds) },
                )),
                _ => None,
            },
        }
    }
}

/// A list such as `[net(1)@[1,2],net(2)@[3,4]]`.
pub open spec fn external_fds_value(v: Seq<char>) -> Option<Seq<EntrySpec>> {
    match tuple_pairs(v) {
        Some(p) => external_fds_of(p),
        None => None,
    }
}

proof fn lemma_external_fds_none(p: Seq<(Seq<char>, Seq<char>)>, i: int)
    requires
        0 <= i <= p.len(),
        external_fds_of(p.take(i)) is None,
    ensures
        external_fds_of(p) is None,
    decreases p.len() - i,
{
    if i < p.len() {
        assert(p.take(i + 1).drop_last() =~= p.take(i));
        lemma_external_fds_none(p, i + 1);
    } else {
        assert(p.take(i) =~= p);
    }
}

impl ExternalFds {
    /// The descriptors of a list of `target@[fds]` pairs, as an option
    /// gives them; `None` when the list does not parse.
    pub fn from_tuple_list(value: &str) -> (r: Option<Self>)
        ensures
            match r {
                Some(x) => external_fds_value(value@) == Some(x@),
                None => external_fds_value(value@) is None,
            },
    {
        let v = chars_of(value);
        let pairs = match parse_tuple_pairs(&v) {
            Some(p) => p,
            None => {
                return None;
            },
        };
        let ghost ps = pair_views(pairs@);
        let mut out: Vec<ExternalFdsEntry> = Vec::new();
        let mut i: usize = 0;
        assert(ps.take(0) =~= Seq::<(Seq<char>, Seq<char>)>::empty());
        assert(entries_view(out@) =~= Seq::<EntrySpec>::empty());
        while i < pairs.len()
            invariant
                i <= pairs@.len(),
                ps == pair_views(pairs@),
                external_fds_value(value@) == external_fds_of(ps),
                external_fds_of(ps.take(i as int)) == Some(entries_view(out@)),
            decreases pairs@.len() - i,
        {
            assert(ps.take(i + 1).drop_last() =~= ps.take(i as int));
            assert(ps.take(i + 1).last() == ps[i as int]);
            let target_text = string_of(&pairs[i].0);
            let target = ExternalFdTarget::from_str(target_text.as_str());
            let fds = parse_intlist(&pairs[i].1);
            match (target, fds) {
                (Ok(t), Some(fds)) => {
                    let entry = ExternalFdsEntry::new(t, fds_of(&fds));
                    let ghost old_out = entries_view(out@);
                    out.push(entry);
                    assert(entries_view(out@) =~= old_out.push(entry@));
                },
                _ => {
                    proof {
                        lemma_external_fds_none(ps, i + 1);
                    }
                    return None;
                },
            }
            i = i + 1;
        }
        assert(ps.take(ps.len() as int) =~= ps);
        Some(ExternalFds { external_fds: out })
    }
}

/// The descriptors that a restore brings, as it takes in an `SCM_RIGHTS`
/// message: the IOMMU descriptor, the VFIO devices and the net devices of
/// the old-style lists are put in front of `external_fds`, in that order (so
/// the net devices come first), leaving the lists empty; then the entries
/// take the descriptors `files`, in order.
pub fn restore_ingest_scm_rights(
    external_fds: &mut ExternalFds,
    net_fds: &mut Option<Vec<crate::api::vm_restore::RestoredNetConfig>>,
    vfio_fds: &mut Option<Vec<crate::api::vm_restore::RestoredVfioConfig>>,
    iommufd_fd: &mut Option<i32>,
    files: Vec<i32>,
) -> (r: Result<(), IngestScmRightsError>)
    ensures
        *final(net_fds) is None,
        *final(vfio_fds) is None,
        *final(iommufd_fd) is None,
        final(external_fds)@ == ingest(
            net_imported(vfio_imported(iommu_imported(old(external_fds)@, *old(iommufd_fd)), *old(vfio_fds)), *old(net_fds)),
            files@,
        ).0,
        r == ingest(
            net_imported(vfio_imported(iommu_imported(old(external_fds)@, *old(iommufd_fd)), *old(vfio_fds)), *old(net_fds)),
            files@,
        ).1,
{
    external_fds.import_restored_iommufd_fd(iommufd_fd);
    external_fds.import_restored_vfio_configs(vfio_fds);
    external_fds.import_restored_net_configs(net_fds);
    external_fds.ingest_scm_rights(files)
}

/// The descriptors that an incoming migration brings, as it takes in an
/// `SCM_RIGHTS` message: the IOMMU descriptor and the VFIO devices of the
/// old-style lists are put in front of `external_fds`, in that order,
/// leaving the lists empty; then the entries take the descriptors `files`,
/// in order.
pub fn receive_migration_ingest_scm_rights(
    external_fds: &mut ExternalFds,
    vfio_fds: &mut Option<Vec<crate::api::vm_restore::RestoredVfioConfig>>,
    iommufd_fd: &mut Option<i32>,
    files: Vec<i32>,
) -> (r: Result<(), IngestScmRightsError>)
    ensures
        *final(vfio_fds) is None,
        *final(iommufd_fd) is None,
        final(external_fds)@ == ingest(
            vfio_imported(iommu_imported(old(external_fds)@, *old(iommufd_fd)), *old(vfio_fds)),
            files@,
        ).0,
        r == ingest(vfio_imported(iommu_imported(old(external_fds)@, *old(iommufd_fd)), *old(vfio_fds)), files@).1,
{
    external_fds.import_restored_iommufd_fd(iommufd_fd);
    external_fds.import_restored_vfio_configs(vfio_fds);
    external_fds.ingest_scm_rights(files)
}

} // verus!
