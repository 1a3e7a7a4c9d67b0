//! Restoring a VM from a snapshot.
use vstd::prelude::*;

use crate::api::vm_migration::opt_rview;
use crate::option_parser::{add_opt, opt_get, parse_spec, raw, raw_or_empty, EntryV, OptErr, OptionParser, OptionParserError};
use crate::text::{chars_of, eq_ignore_case, eq_ignore_case_str, string_from, string_of};
use crate::values::{conv_toggle, conversion_error, toggle_value, intlist_value, lift, pair_views, parse_intlist, parse_tuple_pairs, tuple_pairs};

verus! {

/// Why the restore parameters do not parse.
#[derive(Debug, PartialEq, Eq)]
pub enum ParseRestoreError {
    ParseRestore(OptionParserError),
    /// The `source_url` parameter is missing.
    ParseRestoreSourceUrlMissing,
}

pub enum ParseRestoreErrorSpec {
    ParseRestore(OptErr),
    ParseRestoreSourceUrlMissing,
}

impl View for ParseRestoreError {
    type V = ParseRestoreErrorSpec;

    open spec fn view(&self) -> ParseRestoreErrorSpec {
        match self {
            ParseRestoreError::ParseRestore(e) => ParseRestoreErrorSpec::ParseRestore(e@),
            ParseRestoreError::ParseRestoreSourceUrlMissing => ParseRestoreErrorSpec::ParseRestoreSourceUrlMissing,
        }
    }
}

/// How guest memory comes back from a snapshot.
#[derive(Clone, Copy, Debug, Default, PartialEq, Eq, Structural)]
pub enum MemoryRestoreMode {
    /// Copy the snapshot into guest memory before resuming.
    #[default]
    Copy,
    /// Fault snapshot pages into guest memory on demand.
    OnDemand,
}

#[derive(Debug, PartialEq, Eq)]
pub enum MemoryRestoreModeParseError {
    InvalidValue(String),
}

/// `copy` or `ondemand`, in any ASCII case.
pub open spec fn restore_mode_value(s: Seq<char>) -> Option<MemoryRestoreMode> {
    if eq_ignore_case(s, "copy"@) {
        Some(MemoryRestoreMode::Copy)
    } else if eq_ignore_case(s, "ondemand"@) {
        Some(MemoryRestoreMode::OnDemand)
    } else {
        None
    }
}

fn restore_mode_of(v: &Vec<char>) -> (r: Option<MemoryRestoreMode>)
    ensures
        r == restore_mode_value(v@),
{
    if eq_ignore_case_str(v, "copy") {
        Some(MemoryRestoreMode::Copy)
    } else if eq_ignore_case_str(v, "ondemand") {
        Some(MemoryRestoreMode::OnDemand)
    } else {
        None
    }
}

impl MemoryRestoreMode {
    pub fn from_str(s: &str) -> (r: Result<Self, MemoryRestoreModeParseError>)
        ensures
            match restore_mode_value(s@) {
                Some(m) => r == Ok::<MemoryRestoreMode, MemoryRestoreModeParseError>(m),
                None => r matches Err(MemoryRestoreModeParseError::InvalidValue(x)) && x@ == s@,
            },
    {
        let v = chars_of(s);
        match restore_mode_of(&v) {
            Some(m) => Ok(m),
            None => Err(MemoryRestoreModeParseError::InvalidValue(string_from(s))),
        }
    }
}

/// A net device whose file descriptors a restore replaces.
#[derive(Clone, Debug, Default, PartialEq, Eq)]
pub struct RestoredNetConfig {
    pub id: String,
    pub num_fds: usize,
    /// The new descriptors; ones that were deserialized are -1.
    pub fds: Option<Vec<i32>>,
}

pub struct RestoredNetConfigSpec {
    pub id: Seq<char>,
    pub num_fds: usize,
    pub fds: Option<Seq<i32>>,
}

impl View for RestoredNetConfig {
    type V = RestoredNetConfigSpec;

    open spec fn view(&self) -> RestoredNetConfigSpec {
        RestoredNetConfigSpec {
            id: self.id@,
            num_fds: self.num_fds,
            fds: match self.fds {
                Some(f) => Some(f@),
                None => None,
            },
        }
    }
}

/// A VFIO device whose file descriptor a restore replaces.
#[derive(Clone, Debug, Default, PartialEq, Eq)]
pub struct RestoredVfioConfig {
    pub id: String,
    /// The new descriptor; one that was deserialized is -1.
    pub fd: Option<i32>,
}

/// Parameters of a restore.
#[derive(Clone, Debug, Default, PartialEq, Eq)]
pub struct RestoreConfig {
    pub source_url: String,
    pub prefault: bool,
    pub memory_restore_mode: MemoryRestoreMode,
    pub net_fds: Option<Vec<RestoredNetConfig>>,
    pub resume: bool,
}

pub struct RestoreConfigSpec {
    pub source_url: Seq<char>,
    pub prefault: bool,
    pub memory_restore_mode: MemoryRestoreMode,
    pub net_fds: Option<Seq<RestoredNetConfigSpec>>,
    pub resume: bool,
}

pub open spec fn restored_views(v: Seq<RestoredNetConfig>) -> Seq<RestoredNetConfigSpec> {
    Seq::new(v.len(), |i: int| v[i]@)
}

impl View for RestoreConfig {
    type V = RestoreConfigSpec;

    open spec fn view(&self) -> RestoreConfigSpec {
        RestoreConfigSpec {
            source_url: self.source_url@,
            prefault: self.prefault,
            memory_restore_mode: self.memory_restore_mode,
            net_fds: match self.net_fds {
                Some(v) => Some(restored_views(v@)),
                None => None,
            },
            resume: self.resume,
        }
    }
}

/// Each descriptor of the list as an `i32`.
pub open spec fn as_fds(s: Seq<u64>) -> Seq<i32> {
    Seq::new(s.len(), |i: int| s[i] as i32)
}

/// The net devices of a list of `id@[fds]` pairs.
pub open spec fn restored_of(p: Seq<(Seq<char>, Seq<char>)>) -> Option<Seq<RestoredNetConfigSpec>>
    decreases p.len(),
{
    if p.len() == 0 {
        Some(Seq::empty())
    } else {
        match (restored_of(p.drop_last()), intlist_value(p.last().1)) {
            (Some(a), Some(fds)) => Some(
                a.push(RestoredNetConfigSpec { id: p.last().0, num_fds: fds.len() as usize, fds: Some(as_fds(fds)) }),
            ),
            _ => None,
        }
    }
}

/// A list such as `[net0@[3,4],net1@[5,6]]`.
pub open spec fn net_fds_value(v: Seq<char>) -> Option<Seq<RestoredNetConfigSpec>> {
    match tuple_pairs(v) {
        Some(p) => restored_of(p),
        None => None,
    }
}

proof fn lemma_restored_none(p: Seq<(Seq<char>, Seq<char>)>, i: int)
    requires
        0 <= i <= p.len(),
        restored_of(p.subrange(0, i)) is None,
    ensures
        restored_of(p) is None,
    decreases p.len() - i,
{
    if i < p.len() {
        assert(p.subrange(0, i + 1).drop_last() =~= p.subrange(0, i));
        lemma_restored_none(p, i + 1);
    } else {
        assert(p.subrange(0, i) =~= p);
    }
}

pub(crate) fn fds_of(v: &Vec<u64>) -> (r: Vec<i32>)
    ensures
        r@ == as_fds(v@),
{
    let mut r: Vec<i32> = Vec::new();
    let mut i: usize = 0;
    while i < v.len()
        invariant
            i <= v@.len(),
            r@ == as_fds(v@.subrange(0, i as int)),
        decreases v@.len() - i,
    {
        r.push(v[i] as i32);
        assert(r@ =~= as_fds(v@.subrange(0, i as int + 1)));
        i = i + 1;
    }
    assert(v@.subrange(0, v@.len() as int) =~= v@);
    r
}

fn parse_net_fds(v: &Vec<char>) -> (r: Option<Vec<RestoredNetConfig>>)
    ensures
        match r {
            Some(a) => net_fds_value(v@) == Some(restored_views(a@)),
            None => net_fds_value(v@) is None,
        },
{
    let pairs = match parse_tuple_pairs(v) {
        Some(p) => p,
        None => {
            return None;
        },
    };
    let ghost ps = pair_views(pairs@);
    let mut out: Vec<RestoredNetConfig> = Vec::new();
    let mut i: usize = 0;
    assert(ps.subrange(0, 0) =~= Seq::<(Seq<char>, Seq<char>)>::empty());
    assert(restored_views(out@) =~= Seq::<RestoredNetConfigSpec>::empty());
    while i < pairs.len()
        invariant
            i <= pairs@.len(),
            ps == pair_views(pairs@),
            net_fds_value(v@) == restored_of(ps),
            restored_of(ps.subrange(0, i as int)) == Some(restored_views(out@)),
        decreases pairs@.len() - i,
    {
        assert(ps.subrange(0, i as int + 1).drop_last() =~= ps.subrange(0, i as int));
        assert(ps.subrange(0, i as int + 1).last() == ps[i as int]);
        match parse_intlist(&pairs[i].1) {
            Some(fds) => {
                let id = string_of(&pairs[i].0);
                let entry = RestoredNetConfig { id, num_fds: fds.len(), fds: Some(fds_of(&fds)) };
                let ghost old_out = restored_views(out@);
                out.push(entry);
                assert(restored_views(out@) =~= old_out.push(
                    RestoredNetConfigSpec { id: ps[i as int].0, num_fds: fds@.len() as usize, fds: Some(as_fds(fds@)) },
                ));
            },
            None => {
                proof {
                    lemma_restored_none(ps, i as int + 1);
                }
                return None;
            },
        }
        i = i + 1;
    }
    assert(ps.subrange(0, ps.len() as int) =~= ps);
    Some(out)
}

pub open spec fn restore_options() -> Seq<EntryV> {
    let e = add_opt(add_opt(add_opt(Seq::empty(), "source_url"@, true), "prefault"@, true), "memory_restore_mode"@, true);
    add_opt(add_opt(e, "net_fds"@, true), "resume"@, true)
}

/// The restore that `s` describes: `source_url` is required, the toggles
/// default to off and the memory mode to copy.
pub open spec fn restore_spec(s: Seq<char>) -> Result<RestoreConfigSpec, ParseRestoreErrorSpec> {
    match parse_spec(restore_options(), s, false) {
        Err(x) => Err(ParseRestoreErrorSpec::ParseRestore(x)),
        Ok(e) => match opt_get(e, "source_url"@) {
            None => Err(ParseRestoreErrorSpec::ParseRestoreSourceUrlMissing),
            Some(url) => match conv_toggle(e, "prefault"@) {
                Err(x) => Err(ParseRestoreErrorSpec::ParseRestore(x)),
                Ok(prefault) => match lift(
                    "memory_restore_mode"@,
                    raw(e, "memory_restore_mode"@),
                    restore_mode_value(raw_or_empty(e, "memory_restore_mode"@)),
                ) {
                    Err(x) => Err(ParseRestoreErrorSpec::ParseRestore(x)),
                    Ok(mode) => match lift("net_fds"@, raw(e, "net_fds"@), net_fds_value(raw_or_empty(e, "net_fds"@))) {
                        Err(x) => Err(ParseRestoreErrorSpec::ParseRestore(x)),
                        Ok(net_fds) => match conv_toggle(e, "resume"@) {
                            Err(x) => Err(ParseRestoreErrorSpec::ParseRestore(x)),
                            Ok(resume) => Ok(RestoreConfigSpec {
                                source_url: url,
                                prefault: match prefault {
                                    Some(b) => b,
                                    None => false,
                                },
                                memory_restore_mode: match mode {
                                    Some(m) => m,
                                    None => MemoryRestoreMode::Copy,
                                },
                                net_fds,
                                resume: match resume {
                                    Some(b) => b,
                                    None => false,
                                },
                            }),
                        },
                    },
                },
            },
        },
    }
}

pub open spec fn restore_rview(r: Result<RestoreConfig, ParseRestoreError>) -> Result<RestoreConfigSpec, ParseRestoreErrorSpec> {
    match r {
        Ok(x) => Ok(x@),
        Err(e) => Err(e@),
    }
}

impl RestoreConfig {
    pub fn parse(restore: &str) -> (r: Result<Self, ParseRestoreError>)
        ensures
            restore_rview(r) == restore_spec(restore@),
    {
        let mut parser = OptionParser::new();
        parser.add("source_url");
        parser.add("prefault");
        parser.add("memory_restore_mode");
        parser.add("net_fds");
        parser.add("resume");
        if let Err(e) = parser.parse(restore) {
            return Err(ParseRestoreError::ParseRestore(e));
        }
        let source_url = match parser.get("source_url") {
            Some(u) => u,
            None => return Err(ParseRestoreError::ParseRestoreSourceUrlMissing),
        };
        let prefault = match parser.convert_toggle("prefault") {
            Ok(Some(b)) => b,
            Ok(None) => false,
            Err(e) => return Err(ParseRestoreError::ParseRestore(e)),
        };
        let memory_restore_mode = match parser.raw("memory_restore_mode") {
            None => MemoryRestoreMode::Copy,
            Some(v) => match restore_mode_of(&v) {
                Some(m) => m,
                None => return Err(ParseRestoreError::ParseRestore(conversion_error("memory_restore_mode", &v))),
            },
        };
        let net_fds = match parser.raw("net_fds") {
            None => None,
            Some(v) => match parse_net_fds(&v) {
                Some(l) => Some(l),
                None => return Err(ParseRestoreError::ParseRestore(conversion_error("net_fds", &v))),
            },
        };
        let resume = match parser.convert_toggle("resume") {
            Ok(Some(b)) => b,
            Ok(None) => false,
            Err(e) => return Err(ParseRestoreError::ParseRestore(e)),
        };
        Ok(RestoreConfig { source_url, prefault, memory_restore_mode, net_fds, resume })
    }
}

/// A restore string is accepted exactly when its options parse, it names a
/// `source_url`, and every option given converts; the restore then has that
/// source, `prefault` and `resume` on exactly when they are given as on, the
/// memory mode given (copy when none is), and the net descriptors given.
pub proof fn lemma_restore_fields(s: Seq<char>)
    ensures
        restore_spec(s) is Ok <==> {
            &&& parse_spec(restore_options(), s, false) is Ok
            &&& {
                let e = parse_spec(restore_options(), s, false)->Ok_0;
                &&& opt_get(e, "source_url"@) is Some
                &&& (raw(e, "prefault"@) matches Some(v) ==> toggle_value(v) is Some)
                &&& (raw(e, "memory_restore_mode"@) matches Some(v) ==> restore_mode_value(v) is Some)
                &&& (raw(e, "net_fds"@) matches Some(v) ==> net_fds_value(v) is Some)
                &&& (raw(e, "resume"@) matches Some(v) ==> toggle_value(v) is Some)
            }
        },
        restore_spec(s) is Ok ==> {
            let e = parse_spec(restore_options(), s, false)->Ok_0;
            let r = restore_spec(s)->Ok_0;
            &&& Some(r.source_url) == opt_get(e, "source_url"@)
            &&& r.prefault <==> (raw(e, "prefault"@) matches Some(v) && toggle_value(v) == Some(true))
            &&& r.memory_restore_mode == match raw(e, "memory_restore_mode"@) {
                Some(v) => restore_mode_value(v)->Some_0,
                None => MemoryRestoreMode::Copy,
            }
            &&& r.net_fds == match raw(e, "net_fds"@) {
                Some(v) => net_fds_value(v),
                None => None,
            }
            &&& r.resume <==> (raw(e, "resume"@) matches Some(v) && toggle_value(v) == Some(true))
        },
{
}

} // verus!
