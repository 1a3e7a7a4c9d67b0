//! Virtual CPUs: count, topology, affinity, features and scheduling.
use vstd::prelude::*;

use crate::error::{Error, ErrorSpec, or_default, rview};
use crate::option_parser::{add_opt, parse_spec, raw, raw_or_empty, EntryV, OptErr, OptionParser};
use crate::text::{all_digits, dec_value, is_digit, join, lemma_split_join, unsigned_digits, chars_of, chars_eq_str, eq_ignore_case, eq_ignore_case_str, parse_u16, parse_u32, split, split_chars, string_from, string_of, views};
use crate::values::{
    conv_toggle, conv_u32, conv_u8, conversion_error, given_off, given_on, intlist_value, lift, pair_views,
    parse_intlist, parse_strlist, parse_tuple_pairs, strlist_value, tuple_pairs, u16_value, u32_value, u8_value,
};
use crate::vm_config::{DEFAULT_MAX_PHYS_BITS, DEFAULT_VCPUS};

verus! {

/// The topology of the virtual CPUs.
#[derive(Clone, Copy, Debug, PartialEq, Eq)]
pub struct CpuTopology {
    pub threads_per_core: u16,
    pub cores_per_die: u16,
    pub dies_per_package: u16,
    pub packages: u16,
}

#[derive(Debug, PartialEq, Eq)]
pub enum CpuTopologyParseError {
    InvalidValue(String),
}

/// A topology `threads:cores:dies:packages`.
pub open spec fn topology_value(v: Seq<char>) -> Option<CpuTopology> {
    let p = split(v, ':');
    if p.len() != 4 {
        None
    } else {
        match (u16_value(p[0]), u16_value(p[1]), u16_value(p[2]), u16_value(p[3])) {
            (Some(a), Some(b), Some(c), Some(d)) => Some(
                CpuTopology { threads_per_core: a, cores_per_die: b, dies_per_package: c, packages: d },
            ),
            _ => None,
        }
    }
}

/// A topology written as four decimal numbers of at most 16 bits joined by
/// `:` gives threads per core, cores per die, dies per package and packages,
/// in that order.
pub proof fn lemma_topology_numbers(ps: Seq<Seq<char>>)
    requires
        ps.len() == 4,
        forall|i: int| 0 <= i < 4 ==> (#[trigger] ps[i]).len() > 0 && all_digits(ps[i]) && dec_value(ps[i]) <= 65535,
    ensures
        topology_value(join(ps, ':')) == Some(
            CpuTopology {
                threads_per_core: dec_value(ps[0]) as u16,
                cores_per_die: dec_value(ps[1]) as u16,
                dies_per_package: dec_value(ps[2]) as u16,
                packages: dec_value(ps[3]) as u16,
            },
        ),
{
    assert forall|i: int, j: int| 0 <= i < ps.len() && 0 <= j < ps[i].len() implies #[trigger] ps[i][j] != ':' by {
        assert(is_digit(ps[i][j]));
    }
    lemma_split_join(ps, ':');
    assert forall|i: int| 0 <= i < 4 implies (#[trigger] u16_value(ps[i])) == Some(dec_value(ps[i]) as u16) by {
        assert(is_digit(ps[i][0]));
        assert(unsigned_digits(ps[i]) == ps[i]);
    }
}

fn parse_topology(v: &Vec<char>) -> (r: Option<CpuTopology>)
    ensures
        r == topology_value(v@),
{
    let p = split_chars(v, ':');
    if p.len() != 4 {
        return None;
    }
    assert(p@[0]@ == split(v@, ':')[0] && p@[1]@ == split(v@, ':')[1]);
    assert(p@[2]@ == split(v@, ':')[2] && p@[3]@ == split(v@, ':')[3]);
    let a = parse_u16(&p[0]);
    let b = parse_u16(&p[1]);
    let c = parse_u16(&p[2]);
    let d = parse_u16(&p[3]);
    match (a, b, c, d) {
        (Some(a), Some(b), Some(c), Some(d)) => Some(
            CpuTopology { threads_per_core: a, cores_per_die: b, dies_per_package: c, packages: d },
        ),
        _ => None,
    }
}

impl CpuTopology {
    /// Parses `threads_per_core:cores_per_die:dies_per_package:packages`.
    pub fn from_str(s: &str) -> (r: Result<Self, CpuTopologyParseError>)
        ensures
            match topology_value(s@) {
                Some(t) => r == Ok::<CpuTopology, CpuTopologyParseError>(t),
                None => r matches Err(CpuTopologyParseError::InvalidValue(x)) && x@ == s@,
            },
    {
        let v = chars_of(s);
        match parse_topology(&v) {
            Some(t) => Ok(t),
            None => Err(CpuTopologyParseError::InvalidValue(string_from(s))),
        }
    }
}

/// CPU features that can be enabled.
#[derive(Clone, Copy, Debug, Default, PartialEq, Eq)]
pub struct CpuFeatures {
    pub amx: bool,
}

/// The host CPUs that a virtual CPU may run on.
#[derive(Debug, PartialEq, Eq)]
pub struct CpuAffinity {
    pub vcpu: u32,
    pub host_cpus: Vec<usize>,
}

pub struct CpuAffinitySpec {
    pub vcpu: u32,
    pub host_cpus: Seq<usize>,
}

impl View for CpuAffinity {
    type V = CpuAffinitySpec;

    open spec fn view(&self) -> CpuAffinitySpec {
        CpuAffinitySpec { vcpu: self.vcpu, host_cpus: self.host_cpus@ }
    }
}

/// How virtual CPUs share physical cores.
#[derive(Clone, Copy, Debug, PartialEq, Eq, Default)]
pub enum CoreScheduling {
    /// All vCPUs have the same cookie so can share a core.
    #[default]
    Vm,
    /// Each vCPU has a unique cookie so can't share a core.
    Vcpu,
    Off,
}

#[derive(Debug, PartialEq, Eq)]
pub enum ParseCoreSchedulingError {
    InvalidValue(String),
}

/// `vm`, `vcpu` or `off`, in any ASCII case.
pub open spec fn core_scheduling_value(v: Seq<char>) -> Option<CoreScheduling> {
    if eq_ignore_case(v, "vm"@) {
        Some(CoreScheduling::Vm)
    } else if eq_ignore_case(v, "vcpu"@) {
        Some(CoreScheduling::Vcpu)
    } else if eq_ignore_case(v, "off"@) {
        Some(CoreScheduling::Off)
    } else {
        None
    }
}

fn parse_core_scheduling(v: &Vec<char>) -> (r: Option<CoreScheduling>)
    ensures
        r == core_scheduling_value(v@),
{
    if eq_ignore_case_str(v, "vm") {
        Some(CoreScheduling::Vm)
    } else if eq_ignore_case_str(v, "vcpu") {
        Some(CoreScheduling::Vcpu)
    } else if eq_ignore_case_str(v, "off") {
        Some(CoreScheduling::Off)
    } else {
        None
    }
}

impl CoreScheduling {
    pub fn from_str(s: &str) -> (r: Result<Self, ParseCoreSchedulingError>)
        ensures
            match core_scheduling_value(s@) {
                Some(c) => r == Ok::<CoreScheduling, ParseCoreSchedulingError>(c),
                None => r matches Err(ParseCoreSchedulingError::InvalidValue(x)) && x@ == s@,
            },
    {
        let v = chars_of(s);
        match parse_core_scheduling(&v) {
            Some(c) => Ok(c),
            None => Err(ParseCoreSchedulingError::InvalidValue(string_from(s))),
        }
    }
}

/// The CPU model presented to the guest.
#[derive(Clone, Copy, Debug, PartialEq, Eq, Default)]
pub enum CpuProfile {
    /// The host's own CPU model.
    #[default]
    Host,
    /// A fixed Sapphire Rapids model, for migration between different hosts.
    SapphireRapids,
}

/// `host` or `sapphire-rapids`, in any ASCII case.
pub open spec fn cpu_profile_value(v: Seq<char>) -> Option<CpuProfile> {
    if eq_ignore_case(v, "host"@) {
        Some(CpuProfile::Host)
    } else if eq_ignore_case(v, "sapphire-rapids"@) {
        Some(CpuProfile::SapphireRapids)
    } else {
        None
    }
}

fn parse_cpu_profile(v: &Vec<char>) -> (r: Option<CpuProfile>)
    ensures
        r == cpu_profile_value(v@),
{
    if eq_ignore_case_str(v, "host") {
        Some(CpuProfile::Host)
    } else if eq_ignore_case_str(v, "sapphire-rapids") {
        Some(CpuProfile::SapphireRapids)
    } else {
        None
    }
}

/// The affinities of a list of `vcpu@[host cpus]` pairs.
pub open spec fn affinities_of(p: Seq<(Seq<char>, Seq<char>)>) -> Option<Seq<CpuAffinitySpec>>
    decreases p.len(),
{
    if p.len() == 0 {
        Some(Seq::empty())
    } else {
        match (affinities_of(p.drop_last()), u32_value(p.last().0), intlist_value(p.last().1)) {
            (Some(a), Some(vcpu), Some(cpus)) => Some(
                a.push(
                    CpuAffinitySpec {
                        vcpu,
                        host_cpus: Seq::new(cpus.len(), |i: int| cpus[i] as usize),
                    },
                ),
            ),
            _ => None,
        }
    }
}

/// An affinity list such as `[0@[0,2],1@[1,3]]`.
pub open spec fn affinity_value(v: Seq<char>) -> Option<Seq<CpuAffinitySpec>> {
    match tuple_pairs(v) {
        Some(p) => affinities_of(p),
        None => None,
    }
}

pub open spec fn affinity_views(v: Seq<CpuAffinity>) -> Seq<CpuAffinitySpec> {
    Seq::new(v.len(), |i: int| v[i]@)
}

proof fn lemma_affinities_none(p: Seq<(Seq<char>, Seq<char>)>, i: int)
    requires
        0 <= i <= p.len(),
        affinities_of(p.subrange(0, i)) is None,
    ensures
        affinities_of(p) is None,
    decreases p.len() - i,
{
    if i < p.len() {
        assert(p.subrange(0, i + 1).drop_last() =~= p.subrange(0, i));
        lemma_affinities_none(p, i + 1);
    } else {
        assert(p.subrange(0, i) =~= p);
    }
}

fn parse_affinity(v: &Vec<char>) -> (r: Option<Vec<CpuAffinity>>)
    ensures
        match r {
            Some(a) => affinity_value(v@) == Some(affinity_views(a@)),
            None => affinity_value(v@) is None,
        },
{
    let pairs = match parse_tuple_pairs(v) {
        Some(p) => p,
        None => {
            return None;
        },
    };
    let ghost ps = pair_views(pairs@);
    let mut out: Vec<CpuAffinity> = Vec::new();
    let mut i: usize = 0;
    assert(ps.subrange(0, 0) =~= Seq::<(Seq<char>, Seq<char>)>::empty());
    assert(affinity_views(out@) =~= Seq::<CpuAffinitySpec>::empty());
    while i < pairs.len()
        invariant
            i <= pairs@.len(),
            ps == pair_views(pairs@),
            affinity_value(v@) == affinities_of(ps),
            affinities_of(ps.subrange(0, i as int)) == Some(affinity_views(out@)),
        decreases pairs@.len() - i,
    {
        assert(ps.subrange(0, i as int + 1).drop_last() =~= ps.subrange(0, i as int));
        assert(ps.subrange(0, i as int + 1).last() == ps[i as int]);
        let vcpu = parse_u32(&pairs[i].0);
        let cpus = parse_intlist(&pairs[i].1);
        match (vcpu, cpus) {
            (Some(vcpu), Some(cpus)) => {
                let mut host_cpus: Vec<usize> = Vec::new();
                let mut j: usize = 0;
                while j < cpus.len()
                    invariant
                        j <= cpus@.len(),
                        host_cpus@ == Seq::new(j as nat, |k: int| cpus@[k] as usize),
                    decreases cpus@.len() - j,
                {
                    host_cpus.push(cpus[j] as usize);
                    assert(host_cpus@ =~= Seq::new(j as nat + 1, |k: int| cpus@[k] as usize));
                    j = j + 1;
                }
                let ghost old_out = affinity_views(out@);
                out.push(CpuAffinity { vcpu, host_cpus });
                assert(affinity_views(out@) =~= old_out.push(
                    CpuAffinitySpec {
                        vcpu,
                        host_cpus: Seq::new(cpus@.len(), |k: int| cpus@[k] as usize),
                    },
                ));
            },
            _ => {
                proof {
                    lemma_affinities_none(ps, i as int + 1);
                }
                return None;
            },
        }
        i = i + 1;
    }
    assert(ps.subrange(0, ps.len() as int) =~= ps);
    Some(out)
}

/// The features that a feature list enables: only `amx` is known; the first
/// other name is returned as the error.
pub open spec fn cpu_features_spec(l: Seq<Seq<char>>) -> Result<CpuFeatures, Seq<char>> {
    if exists|j: int| 0 <= j < l.len() && l[j] != "amx"@ {
        let j = choose|j: int|
            0 <= j < l.len() && l[j] != "amx"@ && forall|k: int| 0 <= k < j ==> l[k] == "amx"@;
        Err(l[j])
    } else {
        Ok(CpuFeatures { amx: l.len() > 0 })
    }
}

/// The virtual CPUs.
#[derive(Debug, PartialEq, Eq)]
pub struct CpusConfig {
    pub boot_vcpus: u32,
    pub max_vcpus: u32,
    pub topology: Option<CpuTopology>,
    pub kvm_hyperv: bool,
    pub max_phys_bits: u8,
    pub affinity: Option<Vec<CpuAffinity>>,
    pub features: CpuFeatures,
    pub nested: bool,
    pub core_scheduling: CoreScheduling,
    /// Defaults to "Host" if no profile is given.
    pub profile: CpuProfile,
}

pub struct CpusConfigSpec {
    pub boot_vcpus: u32,
    pub max_vcpus: u32,
    pub topology: Option<CpuTopology>,
    pub kvm_hyperv: bool,
    pub max_phys_bits: u8,
    pub affinity: Option<Seq<CpuAffinitySpec>>,
    pub features: CpuFeatures,
    pub nested: bool,
    pub core_scheduling: CoreScheduling,
    pub profile: CpuProfile,
}

impl View for CpusConfig {
    type V = CpusConfigSpec;

    open spec fn view(&self) -> CpusConfigSpec {
        CpusConfigSpec {
            boot_vcpus: self.boot_vcpus,
            max_vcpus: self.max_vcpus,
            topology: self.topology,
            kvm_hyperv: self.kvm_hyperv,
            max_phys_bits: self.max_phys_bits,
            affinity: match self.affinity {
                Some(a) => Some(affinity_views(a@)),
                None => None,
            },
            features: self.features,
            nested: self.nested,
            core_scheduling: self.core_scheduling,
            profile: self.profile,
        }
    }
}

pub open spec fn cpus_options() -> Seq<EntryV> {
    let e = add_opt(add_opt(add_opt(Seq::empty(), "boot"@, true), "max"@, true), "topology"@, true);
    let e = add_opt(add_opt(add_opt(e, "kvm_hyperv"@, true), "max_phys_bits"@, true), "affinity"@, true);
    let e = add_opt(add_opt(add_opt(e, "features"@, true), "nested"@, true), "core_scheduling"@, true);
    add_opt(e, "profile"@, true)
}

/// The CPUs that `s` describes. `boot` defaults to one vCPU and `max` to
/// `boot`; `nested` defaults to on; options are converted in the order `boot`,
/// `max`, `topology`, `kvm_hyperv`, `max_phys_bits`, `affinity`, `profile`,
/// `features`, `nested`, `core_scheduling`, and the first failure decides the
/// error.
pub open spec fn cpus_spec(s: Seq<char>) -> Result<CpusConfigSpec, ErrorSpec> {
    match parse_spec(cpus_options(), s, false) {
        Err(er) => Err(ErrorSpec::ParseCpus(er)),
        Ok(e) => match conv_u32(e, "boot"@) {
            Err(er) => Err(ErrorSpec::ParseCpus(er)),
            Ok(boot) => match conv_u32(e, "max"@) {
                Err(er) => Err(ErrorSpec::ParseCpus(er)),
                Ok(max) => match lift("topology"@, raw(e, "topology"@), topology_value(raw_or_empty(e, "topology"@))) {
                    Err(er) => Err(ErrorSpec::ParseCpus(er)),
                    Ok(topology) => match conv_toggle(e, "kvm_hyperv"@) {
                        Err(er) => Err(ErrorSpec::ParseCpus(er)),
                        Ok(kvm_hyperv) => match conv_u8(e, "max_phys_bits"@) {
                            Err(er) => Err(ErrorSpec::ParseCpus(er)),
                            Ok(max_phys_bits) => match lift("affinity"@, raw(e, "affinity"@), affinity_value(raw_or_empty(e, "affinity"@))) {
                                Err(er) => Err(ErrorSpec::ParseCpus(er)),
                                Ok(affinity) => match lift("profile"@, raw(e, "profile"@), cpu_profile_value(raw_or_empty(e, "profile"@))) {
                                    Err(er) => Err(ErrorSpec::ParseCpus(er)),
                                    Ok(profile) => {
                                        let features_list = match raw(e, "features"@) {
                                            Some(v) => strlist_value(v),
                                            None => Seq::empty(),
                                        };
                                        match cpu_features_spec(features_list) {
                                            Err(f) => Err(ErrorSpec::InvalidCpuFeatures(f)),
                                            Ok(features) => match conv_toggle(e, "nested"@) {
                                                Err(er) => Err(ErrorSpec::ParseCpus(er)),
                                                Ok(nested) => match lift("core_scheduling"@, raw(e, "core_scheduling"@), core_scheduling_value(raw_or_empty(e, "core_scheduling"@))) {
                                                    Err(er) => Err(ErrorSpec::ParseCpus(er)),
                                                    Ok(core_scheduling) => {
                                                        let b = or_default(boot, DEFAULT_VCPUS);
                                                        Ok(CpusConfigSpec {
                                                            boot_vcpus: b,
                                                            max_vcpus: or_default(max, b),
                                                            topology,
                                                            kvm_hyperv: or_default(kvm_hyperv, false),
                                                            max_phys_bits: or_default(max_phys_bits, DEFAULT_MAX_PHYS_BITS),
                                                            affinity,
                                                            features,
                                                            nested: or_default(nested, true),
                                                            core_scheduling: or_default(core_scheduling, CoreScheduling::Vm),
                                                            profile: or_default(profile, CpuProfile::Host),
                                                        })
                                                    },
                                                },
                                            },
                                        }
                                    },
                                },
                            },
                        },
                    },
                },
            },
        },
    }
}

fn check_features(l: &Vec<Vec<char>>) -> (r: Result<CpuFeatures, String>)
    ensures
        match cpu_features_spec(views(l@)) {
            Ok(f) => r == Ok::<CpuFeatures, String>(f),
            Err(x) => r matches Err(y) && y@ == x,
        },
{
    let ghost lv = views(l@);
    let mut i: usize = 0;
    while i < l.len()
        invariant
            i <= l@.len(),
            lv == views(l@),
            forall|k: int| 0 <= k < i ==> lv[k] == "amx"@,
        decreases l@.len() - i,
    {
        if !chars_eq_str(&l[i], "amx") {
            assert(lv[i as int] != "amx"@);
            let ghost j = choose|j: int|
                0 <= j < lv.len() && lv[j] != "amx"@ && forall|k: int| 0 <= k < j ==> lv[k] == "amx"@;
            assert(j == i as int) by {
                if j < i {
                    assert(lv[j] == "amx"@);
                } else if j > i {
                    assert(lv[i as int] == "amx"@);
                }
            }
            return Err(string_of(&l[i]));
        }
        i = i + 1;
    }
    Ok(CpuFeatures { amx: l.len() > 0 })
}

impl CpusConfig {
    pub fn parse(cpus: &str) -> (r: Result<Self, Error>)
        ensures
            rview(r) == cpus_spec(cpus@),
    {
        let mut parser = OptionParser::new();
        parser.add("boot");
        parser.add("max");
        parser.add("topology");
        parser.add("kvm_hyperv");
        parser.add("max_phys_bits");
        parser.add("affinity");
        parser.add("features");
        parser.add("nested");
        parser.add("core_scheduling");
        parser.add("profile");
        if let Err(e) = parser.parse(cpus) {
            return Err(Error::ParseCpus(e));
        }
        let boot_vcpus: u32 = match parser.convert_u32("boot") {
            Ok(Some(v)) => v,
            Ok(None) => DEFAULT_VCPUS,
            Err(e) => return Err(Error::ParseCpus(e)),
        };
        let max_vcpus: u32 = match parser.convert_u32("max") {
            Ok(Some(v)) => v,
            Ok(None) => boot_vcpus,
            Err(e) => return Err(Error::ParseCpus(e)),
        };
        let topology = match parser.raw("topology") {
            None => None,
            Some(v) => match parse_topology(&v) {
                Some(t) => Some(t),
                None => return Err(Error::ParseCpus(conversion_error("topology", &v))),
            },
        };
        let kvm_hyperv = match parser.convert_toggle("kvm_hyperv") {
            Ok(Some(v)) => v,
            Ok(None) => false,
            Err(e) => return Err(Error::ParseCpus(e)),
        };
        let max_phys_bits = match parser.convert_u8("max_phys_bits") {
            Ok(Some(v)) => v,
            Ok(None) => DEFAULT_MAX_PHYS_BITS,
            Err(e) => return Err(Error::ParseCpus(e)),
        };
        let affinity = match parser.raw("affinity") {
            None => None,
            Some(v) => match parse_affinity(&v) {
                Some(a) => Some(a),
                None => return Err(Error::ParseCpus(conversion_error("affinity", &v))),
            },
        };
        let profile = match parser.raw("profile") {
            None => CpuProfile::Host,
            Some(v) => match parse_cpu_profile(&v) {
                Some(p) => p,
                None => return Err(Error::ParseCpus(conversion_error("profile", &v))),
            },
        };
        let features_list: Vec<Vec<char>> = match parser.raw("features") {
            Some(v) => parse_strlist(&v),
            None => Vec::new(),
        };
        assert(views(features_list@) == (match raw(parser@, "features"@) {
            Some(v) => strlist_value(v),
            None => Seq::<Seq<char>>::empty(),
        })) by {
            if raw(parser@, "features"@) is None {
                assert(views(features_list@) =~= Seq::<Seq<char>>::empty());
            }
        }
        let features = match check_features(&features_list) {
            Ok(f) => f,
            Err(f) => return Err(Error::InvalidCpuFeatures(f)),
        };
        let nested = match parser.convert_toggle("nested") {
            Ok(Some(v)) => v,
            Ok(None) => true,
            Err(e) => return Err(Error::ParseCpus(e)),
        };
        let core_scheduling = match parser.raw("core_scheduling") {
            None => CoreScheduling::Vm,
            Some(v) => match parse_core_scheduling(&v) {
                Some(c) => c,
                None => return Err(Error::ParseCpus(conversion_error("core_scheduling", &v))),
            },
        };
        Ok(CpusConfig {
            boot_vcpus,
            max_vcpus,
            topology,
            kvm_hyperv,
            max_phys_bits,
            affinity,
            features,
            nested,
            core_scheduling,
            profile,
        })
    }
}

impl Default for CpusConfig {
    fn default() -> (r: Self)
        ensures
            r@ == (CpusConfigSpec {
                boot_vcpus: DEFAULT_VCPUS,
                max_vcpus: DEFAULT_VCPUS,
                topology: None,
                kvm_hyperv: false,
                max_phys_bits: DEFAULT_MAX_PHYS_BITS,
                affinity: None,
                features: CpuFeatures { amx: false },
                nested: true,
                core_scheduling: CoreScheduling::Vm,
                profile: CpuProfile::Host,
            }),
    {
        CpusConfig {
            boot_vcpus: DEFAULT_VCPUS,
            max_vcpus: DEFAULT_VCPUS,
            topology: None,
            kvm_hyperv: false,
            max_phys_bits: DEFAULT_MAX_PHYS_BITS,
            affinity: None,
            features: CpuFeatures { amx: false },
            nested: true,
            core_scheduling: CoreScheduling::Vm,
            profile: CpuProfile::Host,
        }
    }
}

/// The default address width of the guest's physical memory.
pub fn default_cpuconfig_max_phys_bits() -> (r: u8)
    ensures
        r == DEFAULT_MAX_PHYS_BITS,
{
    DEFAULT_MAX_PHYS_BITS
}

/// Nested virtualization is on by default.
pub fn default_cpusconfig_nested() -> (r: bool)
    ensures
        r,
{
    true
}

/// Parsed CPUs boot the number of vCPUs given (one when none is) and allow
/// at most the maximum given (the boot count when none is); they have the
/// topology, affinity, profile (host when none is), scheduling (per VM when
/// none is) and physical address bits (46 when none are) given; Hyper-V
/// exactly when `kvm_hyperv` is given as on; nesting unless `nested` is given
/// as off; and AMX exactly when features are given.
pub proof fn lemma_cpus_fields(s: Seq<char>)
    ensures
        cpus_spec(s) is Ok ==> {
            let e = parse_spec(cpus_options(), s, false)->Ok_0;
            let c = cpus_spec(s)->Ok_0;
            let boot = match raw(e, "boot"@) {
                Some(v) => u32_value(v)->Some_0,
                None => 1u32,
            };
            &&& c.boot_vcpus == boot
            &&& c.max_vcpus == match raw(e, "max"@) {
                Some(v) => u32_value(v)->Some_0,
                None => boot,
            }
            &&& c.topology == match raw(e, "topology"@) {
                Some(v) => topology_value(v),
                None => None,
            }
            &&& c.affinity == match raw(e, "affinity"@) {
                Some(v) => affinity_value(v),
                None => None,
            }
            &&& c.profile == match raw(e, "profile"@) {
                Some(v) => cpu_profile_value(v)->Some_0,
                None => CpuProfile::Host,
            }
            &&& c.core_scheduling == match raw(e, "core_scheduling"@) {
                Some(v) => core_scheduling_value(v)->Some_0,
                None => CoreScheduling::Vm,
            }
            &&& c.max_phys_bits == match raw(e, "max_phys_bits"@) {
                Some(v) => u8_value(v)->Some_0,
                None => 46u8,
            }
            &&& c.kvm_hyperv == given_on(e, "kvm_hyperv"@)
            &&& c.nested == !given_off(e, "nested"@)
            &&& c.features.amx == (raw(e, "features"@) matches Some(v) && strlist_value(v).len() > 0)
        },
{
}

} // verus!
