//! Guest memory and memory zones.
use vstd::prelude::*;

use crate::error::{Error, ErrorSpec, or_default, rview};
use crate::option_parser::{add_opt, opt_get, parse_spec, raw, raw_or_empty, EntryV, OptionParser};
use crate::text::{eq_ignore_case, eq_ignore_case_str};
use crate::values::{
    bytes_ok, bytes_value, conv_bytes, conv_toggle, conv_u32, conversion_error, given_bytes, given_on, lift,
    toggle_ok, toggle_value, u32_value,
};
use crate::vm_config::{str_opt_view, DEFAULT_MEMORY_MB};

verus! {

/// The default memory size in bytes (512 MiB).
pub open spec fn default_memory_size() -> u64 {
    0x2000_0000
}

/// How memory is added to a running guest.
#[derive(Clone, Copy, Debug, PartialEq, Eq, Default)]
pub enum HotplugMethod {
    #[default]
    Acpi,
    VirtioMem,
}

#[derive(Debug, PartialEq, Eq)]
pub enum ParseHotplugMethodError {
    InvalidValue(String),
}

/// `acpi` or `virtio-mem`, in any ASCII case.
pub open spec fn hotplug_method_value(v: Seq<char>) -> Option<HotplugMethod> {
    if eq_ignore_case(v, "acpi"@) {
        Some(HotplugMethod::Acpi)
    } else if eq_ignore_case(v, "virtio-mem"@) {
        Some(HotplugMethod::VirtioMem)
    } else {
        None
    }
}

fn parse_hotplug_method(v: &Vec<char>) -> (r: Option<HotplugMethod>)
    ensures
        r == hotplug_method_value(v@),
{
    if eq_ignore_case_str(v, "acpi") {
        Some(HotplugMethod::Acpi)
    } else if eq_ignore_case_str(v, "virtio-mem") {
        Some(HotplugMethod::VirtioMem)
    } else {
        None
    }
}

impl HotplugMethod {
    pub fn from_str(s: &str) -> (r: Result<Self, ParseHotplugMethodError>)
        ensures
            match hotplug_method_value(s@) {
                Some(m) => r == Ok::<HotplugMethod, ParseHotplugMethodError>(m),
                None => r matches Err(ParseHotplugMethodError::InvalidValue(x)) && x@ == s@,
            },
    {
        let v = crate::text::chars_of(s);
        match parse_hotplug_method(&v) {
            Some(m) => Ok(m),
            None => Err(ParseHotplugMethodError::InvalidValue(crate::text::string_from(s))),
        }
    }
}

/// A region of guest memory with its own backing.
#[derive(Debug, Default, PartialEq, Eq)]
pub struct MemoryZoneConfig {
    pub id: String,
    pub size: u64,
    pub file: Option<String>,
    pub shared: bool,
    pub hugepages: bool,
    pub hugepage_size: Option<u64>,
    pub host_numa_node: Option<u32>,
    pub hotplug_size: Option<u64>,
    pub hotplugged_size: Option<u64>,
    pub prefault: bool,
    pub reserve: bool,
    pub mergeable: bool,
}

pub struct MemoryZoneConfigSpec {
    pub id: Seq<char>,
    pub size: u64,
    pub file: Option<Seq<char>>,
    pub shared: bool,
    pub hugepages: bool,
    pub hugepage_size: Option<u64>,
    pub host_numa_node: Option<u32>,
    pub hotplug_size: Option<u64>,
    pub hotplugged_size: Option<u64>,
    pub prefault: bool,
    pub reserve: bool,
    pub mergeable: bool,
}

impl View for MemoryZoneConfig {
    type V = MemoryZoneConfigSpec;

    open spec fn view(&self) -> MemoryZoneConfigSpec {
        MemoryZoneConfigSpec {
            id: self.id@,
            size: self.size,
            file: str_opt_view(self.file),
            shared: self.shared,
            hugepages: self.hugepages,
            hugepage_size: self.hugepage_size,
            host_numa_node: self.host_numa_node,
            hotplug_size: self.hotplug_size,
            hotplugged_size: self.hotplugged_size,
            prefault: self.prefault,
            reserve: self.reserve,
            mergeable: self.mergeable,
        }
    }
}

pub open spec fn zone_options() -> Seq<EntryV> {
    let e = add_opt(add_opt(add_opt(Seq::empty(), "id"@, true), "size"@, true), "file"@, true);
    let e = add_opt(add_opt(add_opt(e, "shared"@, true), "hugepages"@, true), "hugepage_size"@, true);
    let e = add_opt(add_opt(add_opt(e, "host_numa_node"@, true), "hotplug_size"@, true), "hotplugged_size"@, true);
    add_opt(add_opt(add_opt(e, "prefault"@, true), "reserve"@, true), "mergeable"@, true)
}

/// The zone that `s` describes; `id` is required, `size` defaults to 512 MiB
/// and `mergeable` to the setting of the whole memory.
pub open spec fn zone_spec(s: Seq<char>, mergeable: bool) -> Result<MemoryZoneConfigSpec, ErrorSpec> {
    match parse_spec(zone_options(), s, false) {
        Err(er) => Err(ErrorSpec::ParseMemoryZone(er)),
        Ok(e) => match opt_get(e, "id"@) {
            None => Err(ErrorSpec::ParseMemoryZoneIdMissing),
            Some(id) => match conv_bytes(e, "size"@) {
                Err(er) => Err(ErrorSpec::ParseMemoryZone(er)),
                Ok(size) => match conv_toggle(e, "shared"@) {
                    Err(er) => Err(ErrorSpec::ParseMemoryZone(er)),
                    Ok(shared) => match conv_toggle(e, "hugepages"@) {
                        Err(er) => Err(ErrorSpec::ParseMemoryZone(er)),
                        Ok(hugepages) => match conv_bytes(e, "hugepage_size"@) {
                            Err(er) => Err(ErrorSpec::ParseMemoryZone(er)),
                            Ok(hugepage_size) => match conv_u32(e, "host_numa_node"@) {
                                Err(er) => Err(ErrorSpec::ParseMemoryZone(er)),
                                Ok(host_numa_node) => match conv_bytes(e, "hotplug_size"@) {
                                    Err(er) => Err(ErrorSpec::ParseMemoryZone(er)),
                                    Ok(hotplug_size) => match conv_bytes(e, "hotplugged_size"@) {
                                        Err(er) => Err(ErrorSpec::ParseMemoryZone(er)),
                                        Ok(hotplugged_size) => match conv_toggle(e, "prefault"@) {
                                            Err(er) => Err(ErrorSpec::ParseMemoryZone(er)),
                                            Ok(prefault) => match conv_toggle(e, "reserve"@) {
                                                Err(er) => Err(ErrorSpec::ParseMemoryZone(er)),
                                                Ok(reserve) => match conv_toggle(e, "mergeable"@) {
                                                    Err(er) => Err(ErrorSpec::ParseMemoryZone(er)),
                                                    Ok(m) => Ok(MemoryZoneConfigSpec {
                                                        id,
                                                        size: or_default(size, default_memory_size()),
                                                        file: opt_get(e, "file"@),
                                                        shared: or_default(shared, false),
                                                        hugepages: or_default(hugepages, false),
                                                        hugepage_size,
                                                        host_numa_node,
                                                        hotplug_size,
                                                        hotplugged_size,
                                                        prefault: or_default(prefault, false),
                                                        reserve: or_default(reserve, false),
                                                        mergeable: or_default(m, mergeable),
                                                    }),
                                                },
                                            },
                                        },
                                    },
                                },
                            },
                        },
                    },
                },
            },
        },
    }
}

/// The zones, in order; the first zone that fails decides the error.
pub open spec fn zones_spec(zones: Seq<Seq<char>>, mergeable: bool) -> Result<Seq<MemoryZoneConfigSpec>, ErrorSpec>
    decreases zones.len(),
{
    if zones.len() == 0 {
        Ok(Seq::empty())
    } else {
        match zones_spec(zones.drop_last(), mergeable) {
            Err(x) => Err(x),
            Ok(l) => match zone_spec(zones.last(), mergeable) {
                Err(x) => Err(x),
                Ok(z) => Ok(l.push(z)),
            },
        }
    }
}

fn bool_or(o: Option<bool>, d: bool) -> (r: bool)
    ensures
        r == or_default(o, d),
{
    match o {
        Some(b) => b,
        None => d,
    }
}

fn parse_zone(zone: &str, mergeable: bool) -> (r: Result<MemoryZoneConfig, Error>)
    ensures
        rview(r) == zone_spec(zone@, mergeable),
{
    let mut parser = OptionParser::new();
    parser.add("id");
    parser.add("size");
    parser.add("file");
    parser.add("shared");
    parser.add("hugepages");
    parser.add("hugepage_size");
    parser.add("host_numa_node");
    parser.add("hotplug_size");
    parser.add("hotplugged_size");
    parser.add("prefault");
    parser.add("reserve");
    parser.add("mergeable");
    if let Err(e) = parser.parse(zone) {
        return Err(Error::ParseMemoryZone(e));
    }
    let id = match parser.get("id") {
        Some(i) => i,
        None => return Err(Error::ParseMemoryZoneIdMissing),
    };
    let size = match parser.convert_bytes("size") {
        Ok(Some(v)) => v,
        Ok(None) => DEFAULT_MEMORY_MB << 20u64,
        Err(e) => return Err(Error::ParseMemoryZone(e)),
    };
    assert((DEFAULT_MEMORY_MB << 20u64) == 0x2000_0000) by (bit_vector);
    let file = parser.get("file");
    let shared = match parser.convert_toggle("shared") {
        Ok(v) => bool_or(v, false),
        Err(e) => return Err(Error::ParseMemoryZone(e)),
    };
    let hugepages = match parser.convert_toggle("hugepages") {
        Ok(v) => bool_or(v, false),
        Err(e) => return Err(Error::ParseMemoryZone(e)),
    };
    let hugepage_size = match parser.convert_bytes("hugepage_size") {
        Ok(v) => v,
        Err(e) => return Err(Error::ParseMemoryZone(e)),
    };
    let host_numa_node = match parser.convert_u32("host_numa_node") {
        Ok(v) => v,
        Err(e) => return Err(Error::ParseMemoryZone(e)),
    };
    let hotplug_size = match parser.convert_bytes("hotplug_size") {
        Ok(v) => v,
        Err(e) => return Err(Error::ParseMemoryZone(e)),
    };
    let hotplugged_size = match parser.convert_bytes("hotplugged_size") {
        Ok(v) => v,
        Err(e) => return Err(Error::ParseMemoryZone(e)),
    };
    let prefault = match parser.convert_toggle("prefault") {
        Ok(v) => bool_or(v, false),
        Err(e) => return Err(Error::ParseMemoryZone(e)),
    };
    let reserve = match parser.convert_toggle("reserve") {
        Ok(v) => bool_or(v, false),
        Err(e) => return Err(Error::ParseMemoryZone(e)),
    };
    let zone_mergeable = match parser.convert_toggle("mergeable") {
        Ok(v) => bool_or(v, mergeable),
        Err(e) => return Err(Error::ParseMemoryZone(e)),
    };
    Ok(MemoryZoneConfig {
        id,
        size,
        file,
        shared,
        hugepages,
        hugepage_size,
        host_numa_node,
        hotplug_size,
        hotplugged_size,
        prefault,
        reserve,
        mergeable: zone_mergeable,
    })
}

/// Guest memory.
#[derive(Debug, PartialEq, Eq)]
pub struct MemoryConfig {
    pub size: u64,
    pub mergeable: bool,
    pub hotplug_method: HotplugMethod,
    pub hotplug_size: Option<u64>,
    pub hotplugged_size: Option<u64>,
    pub shared: bool,
    pub hugepages: bool,
    pub hugepage_size: Option<u64>,
    pub prefault: bool,
    pub reserve: bool,
    pub zones: Option<Vec<MemoryZoneConfig>>,
    pub thp: bool,
}

pub struct MemoryConfigSpec {
    pub size: u64,
    pub mergeable: bool,
    pub hotplug_method: HotplugMethod,
    pub hotplug_size: Option<u64>,
    pub hotplugged_size: Option<u64>,
    pub shared: bool,
    pub hugepages: bool,
    pub hugepage_size: Option<u64>,
    pub prefault: bool,
    pub reserve: bool,
    pub zones: Option<Seq<MemoryZoneConfigSpec>>,
    pub thp: bool,
}

pub open spec fn zone_views(z: Seq<MemoryZoneConfig>) -> Seq<MemoryZoneConfigSpec> {
    Seq::new(z.len(), |i: int| z[i]@)
}

impl View for MemoryConfig {
    type V = MemoryConfigSpec;

    open spec fn view(&self) -> MemoryConfigSpec {
        MemoryConfigSpec {
            size: self.size,
            mergeable: self.mergeable,
            hotplug_method: self.hotplug_method,
            hotplug_size: self.hotplug_size,
            hotplugged_size: self.hotplugged_size,
            shared: self.shared,
            hugepages: self.hugepages,
            hugepage_size: self.hugepage_size,
            prefault: self.prefault,
            reserve: self.reserve,
            zones: match self.zones {
                Some(z) => Some(zone_views(z@)),
                None => None,
            },
            thp: self.thp,
        }
    }
}

pub open spec fn memory_options() -> Seq<EntryV> {
    let e = add_opt(add_opt(add_opt(Seq::empty(), "size"@, true), "file"@, true), "mergeable"@, true);
    let e = add_opt(add_opt(add_opt(e, "hotplug_method"@, true), "hotplug_size"@, true), "hotplugged_size"@, true);
    let e = add_opt(add_opt(add_opt(e, "shared"@, true), "hugepages"@, true), "hugepage_size"@, true);
    add_opt(add_opt(add_opt(e, "prefault"@, true), "reserve"@, true), "thp"@, true)
}

/// The settings of the whole memory that `s` gives, before its zones.
pub struct MemoryTop {
    pub size: u64,
    pub mergeable: bool,
    pub hotplug_method: HotplugMethod,
    pub hotplug_size: Option<u64>,
    pub hotplugged_size: Option<u64>,
    pub shared: bool,
    pub hugepages: bool,
    pub hugepage_size: Option<u64>,
    pub prefault: bool,
    pub reserve: bool,
    pub thp: bool,
}

/// The memory settings of `s`: `size` defaults to 512 MiB, `thp` to on and
/// the other toggles to off.
pub open spec fn memory_top_spec(s: Seq<char>) -> Result<MemoryTop, ErrorSpec> {
    match parse_spec(memory_options(), s, false) {
        Err(er) => Err(ErrorSpec::ParseMemory(er)),
        Ok(e) => match conv_bytes(e, "size"@) {
            Err(er) => Err(ErrorSpec::ParseMemory(er)),
            Ok(size) => match conv_toggle(e, "mergeable"@) {
                Err(er) => Err(ErrorSpec::ParseMemory(er)),
                Ok(mergeable) => match lift("hotplug_method"@, raw(e, "hotplug_method"@), hotplug_method_value(raw_or_empty(e, "hotplug_method"@))) {
                    Err(er) => Err(ErrorSpec::ParseMemory(er)),
                    Ok(hotplug_method) => match conv_bytes(e, "hotplug_size"@) {
                        Err(er) => Err(ErrorSpec::ParseMemory(er)),
                        Ok(hotplug_size) => match conv_bytes(e, "hotplugged_size"@) {
                            Err(er) => Err(ErrorSpec::ParseMemory(er)),
                            Ok(hotplugged_size) => match conv_toggle(e, "shared"@) {
                                Err(er) => Err(ErrorSpec::ParseMemory(er)),
                                Ok(shared) => match conv_toggle(e, "hugepages"@) {
                                    Err(er) => Err(ErrorSpec::ParseMemory(er)),
                                    Ok(hugepages) => match conv_bytes(e, "hugepage_size"@) {
                                        Err(er) => Err(ErrorSpec::ParseMemory(er)),
                                        Ok(hugepage_size) => match conv_toggle(e, "prefault"@) {
                                            Err(er) => Err(ErrorSpec::ParseMemory(er)),
                                            Ok(prefault) => match conv_toggle(e, "reserve"@) {
                                                Err(er) => Err(ErrorSpec::ParseMemory(er)),
                                                Ok(reserve) => match conv_toggle(e, "thp"@) {
                                                    Err(er) => Err(ErrorSpec::ParseMemory(er)),
                                                    Ok(thp) => Ok(MemoryTop {
                                                        size: or_default(size, default_memory_size()),
                                                        mergeable: or_default(mergeable, false),
                                                        hotplug_method: or_default(hotplug_method, HotplugMethod::Acpi),
                                                        hotplug_size,
                                                        hotplugged_size,
                                                        shared: or_default(shared, false),
                                                        hugepages: or_default(hugepages, false),
                                                        hugepage_size,
                                                        prefault: or_default(prefault, false),
                                                        reserve: or_default(reserve, false),
                                                        thp: or_default(thp, true),
                                                    }),
                                                },
                                            },
                                        },
                                    },
                                },
                            },
                        },
                    },
                },
            },
        },
    }
}

pub open spec fn str_views(v: Seq<&str>) -> Seq<Seq<char>> {
    Seq::new(v.len(), |i: int| v[i]@)
}

/// The memory that `memory` and the zone descriptions `memory_zones` give.
pub open spec fn memory_spec(memory: Seq<char>, memory_zones: Option<Seq<Seq<char>>>) -> Result<MemoryConfigSpec, ErrorSpec> {
    match memory_top_spec(memory) {
        Err(x) => Err(x),
        Ok(t) => {
            let zones = match memory_zones {
                None => Ok(None),
                Some(z) => match zones_spec(z, t.mergeable) {
                    Ok(l) => Ok(Some(l)),
                    Err(x) => Err(x),
                },
            };
            match zones {
                Err(x) => Err(x),
                Ok(zones) => Ok(MemoryConfigSpec {
                    size: t.size,
                    mergeable: t.mergeable,
                    hotplug_method: t.hotplug_method,
                    hotplug_size: t.hotplug_size,
                    hotplugged_size: t.hotplugged_size,
                    shared: t.shared,
                    hugepages: t.hugepages,
                    hugepage_size: t.hugepage_size,
                    prefault: t.prefault,
                    reserve: t.reserve,
                    zones,
                    thp: t.thp,
                }),
            }
        },
    }
}

proof fn lemma_zones_err(z: Seq<Seq<char>>, m: bool, i: int)
    requires
        0 <= i <= z.len(),
        zones_spec(z.subrange(0, i), m) is Err,
    ensures
        zones_spec(z, m) == zones_spec(z.subrange(0, i), m),
    decreases z.len() - i,
{
    if i < z.len() {
        assert(z.subrange(0, i + 1).drop_last() =~= z.subrange(0, i));
        lemma_zones_err(z, m, i + 1);
    } else {
        assert(z.subrange(0, i) =~= z);
    }
}

proof fn lemma_zones_ok(zs: Seq<Seq<char>>, m: bool)
    ensures
        (forall|j: int| 0 <= j < zs.len() ==> (#[trigger] zone_spec(zs[j], m)) is Ok) ==> zones_spec(zs, m) is Ok,
        zones_spec(zs, m) is Ok ==> {
            let l = zones_spec(zs, m)->Ok_0;
            &&& l.len() == zs.len()
            &&& forall|j: int| 0 <= j < zs.len() ==> #[trigger] zone_spec(zs[j], m) == Ok::<MemoryZoneConfigSpec, ErrorSpec>(l[j])
        },
    decreases zs.len(),
{
    if zs.len() > 0 {
        let d = zs.drop_last();
        lemma_zones_ok(d, m);
        assert forall|j: int| 0 <= j < d.len() implies #[trigger] d[j] == zs[j] by {}
        if forall|j: int| 0 <= j < zs.len() ==> (#[trigger] zone_spec(zs[j], m)) is Ok {
            assert forall|j: int| 0 <= j < d.len() implies (#[trigger] zone_spec(d[j], m)) is Ok by {
                assert(zone_spec(zs[j], m) is Ok);
            }
            assert(zone_spec(zs[zs.len() - 1], m) is Ok);
        }
        if zones_spec(zs, m) is Ok {
            let l = zones_spec(zs, m)->Ok_0;
            let ld = zones_spec(d, m)->Ok_0;
            assert(zs.last() == zs[zs.len() - 1]);
            assert(l == ld.push(zone_spec(zs.last(), m)->Ok_0));
            assert forall|j: int| 0 <= j < zs.len() implies #[trigger] zone_spec(zs[j], m)
                == Ok::<MemoryZoneConfigSpec, ErrorSpec>(l[j]) by {
                if j < d.len() {
                    assert(zone_spec(d[j], m) == Ok::<MemoryZoneConfigSpec, ErrorSpec>(ld[j]));
                }
            }
        }
    }
}

/// Zones are read in order: when the zones before position `i` are all
/// valid and zone `i` is not, the zones fail with the error of zone `i`.
pub proof fn lemma_zones_first_error(zs: Seq<Seq<char>>, m: bool, i: int)
    requires
        0 <= i < zs.len(),
        forall|j: int| 0 <= j < i ==> (#[trigger] zone_spec(zs[j], m)) is Ok,
        zone_spec(zs[i], m) is Err,
    ensures
        zones_spec(zs, m) == Err::<Seq<MemoryZoneConfigSpec>, ErrorSpec>(zone_spec(zs[i], m)->Err_0),
    decreases zs.len(),
{
    let d = zs.drop_last();
    if i == zs.len() - 1 {
        assert forall|j: int| 0 <= j < d.len() implies (#[trigger] zone_spec(d[j], m)) is Ok by {
            assert(d[j] == zs[j]);
        }
        lemma_zones_ok(d, m);
    } else {
        assert forall|j: int| 0 <= j < i implies (#[trigger] zone_spec(d[j], m)) is Ok by {
            assert(d[j] == zs[j]);
        }
        assert(d[i] == zs[i]);
        lemma_zones_first_error(d, m, i);
    }
}

/// A zone has the id it was given, the size it was given or else 512 MiB,
/// and its own `mergeable` toggle or else the memory's; a zone without an
/// id is refused with `ParseMemoryZoneIdMissing`.
pub proof fn lemma_zone_defaults(s: Seq<char>, m: bool)
    requires
        parse_spec(zone_options(), s, false) is Ok,
    ensures
        ({
            let e = parse_spec(zone_options(), s, false)->Ok_0;
            &&& opt_get(e, "id"@) is None ==> zone_spec(s, m) == Err::<MemoryZoneConfigSpec, ErrorSpec>(
                ErrorSpec::ParseMemoryZoneIdMissing)
            &&& zone_spec(s, m) is Ok ==> {
                let z = zone_spec(s, m)->Ok_0;
                &&& opt_get(e, "id"@) == Some(z.id)
                &&& conv_bytes(e, "size"@) is Ok
                &&& z.size == or_default(conv_bytes(e, "size"@)->Ok_0, default_memory_size())
                &&& conv_toggle(e, "mergeable"@) is Ok
                &&& z.mergeable == or_default(conv_toggle(e, "mergeable"@)->Ok_0, m)
            }
        }),
{
}

/// Parsing the memory gives no zones when no zone descriptions are given,
/// and otherwise one zone per description, in order, each read with the
/// memory's own `mergeable` as its default.
pub proof fn lemma_memory_zones(memory: Seq<char>, memory_zones: Option<Seq<Seq<char>>>)
    requires
        memory_spec(memory, memory_zones) is Ok,
    ensures
        ({
            let c = memory_spec(memory, memory_zones)->Ok_0;
            match memory_zones {
                None => c.zones is None,
                Some(zs) => {
                    &&& c.zones is Some
                    &&& c.zones->Some_0.len() == zs.len()
                    &&& forall|i: int| 0 <= i < zs.len() ==> #[trigger] zone_spec(zs[i], c.mergeable)
                        == Ok::<MemoryZoneConfigSpec, ErrorSpec>(c.zones->Some_0[i])
                },
            }
        }),
{
    let t = memory_top_spec(memory)->Ok_0;
    if let Some(zs) = memory_zones {
        lemma_zones_ok(zs, t.mergeable);
    }
}

/// The memory settings are accepted exactly when the options parse and
/// every value given converts, and the zone descriptions, if any, are all
/// valid; the memory then has the size given (512 MiB when none is), the
/// hotplug method given (ACPI when none is), the byte sizes given, `thp`
/// unless it is given as off, and each other toggle exactly when it is
/// given as on.
pub proof fn lemma_memory_fields(memory: Seq<char>, memory_zones: Option<Seq<Seq<char>>>)
    ensures
        memory_spec(memory, memory_zones) is Ok <==> {
            &&& parse_spec(memory_options(), memory, false) is Ok
            &&& {
                let e = parse_spec(memory_options(), memory, false)->Ok_0;
                &&& bytes_ok(e, "size"@) && bytes_ok(e, "hotplug_size"@) && bytes_ok(e, "hotplugged_size"@)
                &&& bytes_ok(e, "hugepage_size"@)
                &&& toggle_ok(e, "mergeable"@) && toggle_ok(e, "shared"@) && toggle_ok(e, "hugepages"@)
                &&& toggle_ok(e, "prefault"@) && toggle_ok(e, "reserve"@) && toggle_ok(e, "thp"@)
                &&& (raw(e, "hotplug_method"@) matches Some(v) ==> hotplug_method_value(v) is Some)
                &&& (memory_zones matches Some(zs) ==> zones_spec(zs, given_on(e, "mergeable"@)) is Ok)
            }
        },
        memory_spec(memory, memory_zones) is Ok ==> {
            let e = parse_spec(memory_options(), memory, false)->Ok_0;
            let m = memory_spec(memory, memory_zones)->Ok_0;
            &&& m.size == match raw(e, "size"@) {
                Some(v) => bytes_value(v)->Some_0,
                None => default_memory_size(),
            }
            &&& m.hotplug_method == match raw(e, "hotplug_method"@) {
                Some(v) => hotplug_method_value(v)->Some_0,
                None => HotplugMethod::Acpi,
            }
            &&& m.hotplug_size == given_bytes(e, "hotplug_size"@)
            &&& m.hotplugged_size == given_bytes(e, "hotplugged_size"@)
            &&& m.hugepage_size == given_bytes(e, "hugepage_size"@)
            &&& m.mergeable == given_on(e, "mergeable"@)
            &&& m.shared == given_on(e, "shared"@)
            &&& m.hugepages == given_on(e, "hugepages"@)
            &&& m.prefault == given_on(e, "prefault"@)
            &&& m.reserve == given_on(e, "reserve"@)
            &&& m.thp == !(raw(e, "thp"@) matches Some(v) && toggle_value(v) == Some(false))
        },
{
}

/// A zone description is accepted exactly when its options parse, it has an
/// id and every value given converts; the zone then has the id and file
/// given, the size given (512 MiB when none is), the byte sizes and NUMA
/// node given, `mergeable` as given or else the memory's setting `m`, and
/// each other toggle exactly when it is given as on.
pub proof fn lemma_zone_fields(s: Seq<char>, m: bool)
    ensures
        zone_spec(s, m) is Ok <==> {
            &&& parse_spec(zone_options(), s, false) is Ok
            &&& {
                let e = parse_spec(zone_options(), s, false)->Ok_0;
                &&& opt_get(e, "id"@) is Some
                &&& bytes_ok(e, "size"@) && bytes_ok(e, "hugepage_size"@) && bytes_ok(e, "hotplug_size"@)
                &&& bytes_ok(e, "hotplugged_size"@)
                &&& toggle_ok(e, "shared"@) && toggle_ok(e, "hugepages"@) && toggle_ok(e, "prefault"@)
                &&& toggle_ok(e, "reserve"@) && toggle_ok(e, "mergeable"@)
                &&& (raw(e, "host_numa_node"@) matches Some(v) ==> u32_value(v) is Some)
            }
        },
        zone_spec(s, m) is Ok ==> {
            let e = parse_spec(zone_options(), s, false)->Ok_0;
            let z = zone_spec(s, m)->Ok_0;
            &&& Some(z.id) == opt_get(e, "id"@)
            &&& z.file == opt_get(e, "file"@)
            &&& z.size == match raw(e, "size"@) {
                Some(v) => bytes_value(v)->Some_0,
                None => default_memory_size(),
            }
            &&& z.hugepage_size == given_bytes(e, "hugepage_size"@)
            &&& z.hotplug_size == given_bytes(e, "hotplug_size"@)
            &&& z.hotplugged_size == given_bytes(e, "hotplugged_size"@)
            &&& z.host_numa_node == match raw(e, "host_numa_node"@) {
                Some(v) => u32_value(v),
                None => None,
            }
            &&& z.shared == given_on(e, "shared"@)
            &&& z.hugepages == given_on(e, "hugepages"@)
            &&& z.prefault == given_on(e, "prefault"@)
            &&& z.reserve == given_on(e, "reserve"@)
            &&& z.mergeable == match raw(e, "mergeable"@) {
                Some(v) => toggle_value(v)->Some_0,
                None => m,
            }
        },
{
}

fn parse_zones(memory_zones: &Vec<&str>, mergeable: bool) -> (r: Result<Vec<MemoryZoneConfig>, Error>)
    ensures
        match r {
            Ok(z) => zones_spec(str_views(memory_zones@), mergeable) == Ok::<Seq<MemoryZoneConfigSpec>, ErrorSpec>(zone_views(z@)),
            Err(e) => zones_spec(str_views(memory_zones@), mergeable) == Err::<Seq<MemoryZoneConfigSpec>, ErrorSpec>(e@),
        },
{
    let ghost zs = str_views(memory_zones@);
    let mut zones: Vec<MemoryZoneConfig> = Vec::new();
    let mut i: usize = 0;
    assert(zs.subrange(0, 0) =~= Seq::<Seq<char>>::empty());
    assert(zone_views(zones@) =~= Seq::<MemoryZoneConfigSpec>::empty());
    while i < memory_zones.len()
        invariant
            i <= memory_zones@.len(),
            zs == str_views(memory_zones@),
            zones_spec(zs.subrange(0, i as int), mergeable) == Ok::<Seq<MemoryZoneConfigSpec>, ErrorSpec>(
                zone_views(zones@),
            ),
        decreases memory_zones@.len() - i,
    {
        assert(zs.subrange(0, i as int + 1).drop_last() =~= zs.subrange(0, i as int));
        assert(zs.subrange(0, i as int + 1).last() == memory_zones@[i as int]@);
        let z = match parse_zone(memory_zones[i], mergeable) {
            Ok(z) => z,
            Err(e) => {
                proof {
                    lemma_zones_err(zs, mergeable, i as int + 1);
                }
                return Err(e);
            },
        };
        let ghost old_z = zone_views(zones@);
        zones.push(z);
        assert(zone_views(zones@) =~= old_z.push(z@));
        i = i + 1;
    }
    assert(zs.subrange(0, zs.len() as int) =~= zs);
    Ok(zones)
}

impl MemoryConfig {
    pub fn parse(memory: &str, memory_zones: Option<Vec<&str>>) -> (r: Result<Self, Error>)
        ensures
            rview(r) == memory_spec(
                memory@,
                match memory_zones {
                    Some(z) => Some(str_views(z@)),
                    None => None,
                },
            ),
    {
        let mut parser = OptionParser::new();
        parser.add("size");
        parser.add("file");
        parser.add("mergeable");
        parser.add("hotplug_method");
        parser.add("hotplug_size");
        parser.add("hotplugged_size");
        parser.add("shared");
        parser.add("hugepages");
        parser.add("hugepage_size");
        parser.add("prefault");
        parser.add("reserve");
        parser.add("thp");
        if let Err(e) = parser.parse(memory) {
            return Err(Error::ParseMemory(e));
        }
        let size = match parser.convert_bytes("size") {
            Ok(Some(v)) => v,
            Ok(None) => DEFAULT_MEMORY_MB << 20u64,
            Err(e) => return Err(Error::ParseMemory(e)),
        };
        assert((DEFAULT_MEMORY_MB << 20u64) == 0x2000_0000) by (bit_vector);
        let mergeable = match parser.convert_toggle("mergeable") {
            Ok(v) => bool_or(v, false),
            Err(e) => return Err(Error::ParseMemory(e)),
        };
        let hotplug_method = match parser.raw("hotplug_method") {
            None => HotplugMethod::Acpi,
            Some(v) => match parse_hotplug_method(&v) {
                Some(m) => m,
                None => return Err(Error::ParseMemory(conversion_error("hotplug_method", &v))),
            },
        };
        let hotplug_size = match parser.convert_bytes("hotplug_size") {
            Ok(v) => v,
            Err(e) => return Err(Error::ParseMemory(e)),
        };
        let hotplugged_size = match parser.convert_bytes("hotplugged_size") {
            Ok(v) => v,
            Err(e) => return Err(Error::ParseMemory(e)),
        };
        let shared = match parser.convert_toggle("shared") {
            Ok(v) => bool_or(v, false),
            Err(e) => return Err(Error::ParseMemory(e)),
        };
        let hugepages = match parser.convert_toggle("hugepages") {
            Ok(v) => bool_or(v, false),
            Err(e) => return Err(Error::ParseMemory(e)),
        };
        let hugepage_size = match parser.convert_bytes("hugepage_size") {
            Ok(v) => v,
            Err(e) => return Err(Error::ParseMemory(e)),
        };
        let prefault = match parser.convert_toggle("prefault") {
            Ok(v) => bool_or(v, false),
            Err(e) => return Err(Error::ParseMemory(e)),
        };
        let reserve = match parser.convert_toggle("reserve") {
            Ok(v) => bool_or(v, false),
            Err(e) => return Err(Error::ParseMemory(e)),
        };
        let thp = match parser.convert_toggle("thp") {
            Ok(v) => bool_or(v, true),
            Err(e) => return Err(Error::ParseMemory(e)),
        };
        let zones = match memory_zones {
            None => None,
            Some(memory_zones) => match parse_zones(&memory_zones, mergeable) {
                Ok(z) => Some(z),
                Err(e) => return Err(e),
            },
        };
        Ok(MemoryConfig {
            size,
            mergeable,
            hotplug_method,
            hotplug_size,
            hotplugged_size,
            shared,
            hugepages,
            hugepage_size,
            prefault,
            reserve,
            zones,
            thp,
        })
    }
}

impl Default for MemoryConfig {
    fn default() -> (r: Self)
        ensures
            r@ == (MemoryConfigSpec {
                size: default_memory_size(),
                mergeable: false,
                hotplug_method: HotplugMethod::Acpi,
                hotplug_size: None,
                hotplugged_size: None,
                shared: false,
                hugepages: false,
                hugepage_size: None,
                prefault: false,
                reserve: false,
                zones: None,
                thp: true,
            }),
    {
        MemoryConfig {
            size: 0x2000_0000,
            mergeable: false,
            hotplug_method: HotplugMethod::Acpi,
            hotplug_size: None,
            hotplugged_size: None,
            shared: false,
            hugepages: false,
            hugepage_size: None,
            prefault: false,
            reserve: false,
            zones: None,
            thp: true,
        }
    }
}

/// Transparent huge pages are on by default.
pub fn default_memoryconfig_thp() -> (r: bool)
    ensures
        r,
{
    true
}

} // verus!
