//! Virtual machine configuration: the parameters of each device and
//! component, and the parsers of their command-line syntax.
use vstd::prelude::*;

use crate::error::{Error, ErrorSpec, or_default, rview};
use crate::option_parser::{add_opt, opt_get, parse_spec, raw, EntryV, OptionParser};
use crate::values::{conv_toggle, conv_u16, conv_u8, toggle_value, u16_value, u8_value};

pub mod balloon;
pub mod console;
pub mod cpus;
pub mod devices;
pub mod fs;
pub mod landlock;
pub mod memory;
pub mod net;
pub mod net_addr;
pub mod payload;
pub mod platform;
pub mod pmem;
pub mod rng;
pub mod vm;

verus! {

pub const DEFAULT_VCPUS: u32 = 1;

/// When booting with PVH boot the maximum physical addressable size is a 46
/// bit address space even when the host supports 5-level paging.
pub const DEFAULT_MAX_PHYS_BITS: u8 = 46;

pub const DEFAULT_NUM_PCI_SEGMENTS: u16 = 1;

pub const DEFAULT_IOMMU_ADDRESS_WIDTH_BITS: u8 = 64;

pub const MAX_IOMMU_ADDRESS_WIDTH_BITS: u8 = 64;

pub const DEFAULT_PCI_SEGMENT_APERTURE_WEIGHT: u32 = 1;

pub const DEFAULT_MEMORY_MB: u64 = 512;

pub const DEFAULT_DISK_NUM_QUEUES: usize = 1;

pub const DEFAULT_DISK_QUEUE_SIZE: u16 = 128;

pub const DEFAULT_NET_NUM_QUEUES: usize = 2;

pub const DEFAULT_NET_QUEUE_SIZE: u16 = 256;

/// Default size of an ivshmem region, in MiB.
pub const DEFAULT_IVSHMEM_SIZE: usize = 128;

/// Settings that every PCI device shares.
#[derive(Debug, PartialEq, Eq, Default)]
pub struct PciDeviceCommonConfig {
    pub id: Option<String>,
    pub iommu: bool,
    pub pci_segment: u16,
    pub pci_device_id: Option<u8>,
}

pub struct PciDeviceCommonConfigSpec {
    pub id: Option<Seq<char>>,
    pub iommu: bool,
    pub pci_segment: u16,
    pub pci_device_id: Option<u8>,
}

pub open spec fn str_opt_view(o: Option<String>) -> Option<Seq<char>> {
    match o {
        Some(s) => Some(s@),
        None => None,
    }
}

impl View for PciDeviceCommonConfig {
    type V = PciDeviceCommonConfigSpec;

    open spec fn view(&self) -> PciDeviceCommonConfigSpec {
        PciDeviceCommonConfigSpec {
            id: str_opt_view(self.id),
            iommu: self.iommu,
            pci_segment: self.pci_segment,
            pci_device_id: self.pci_device_id,
        }
    }
}

/// The PCI options registered after `e`: `id`, `iommu` (when `iommu`),
/// `pci_segment`, `pci_device_id`.
pub open spec fn pci_options(e: Seq<EntryV>, iommu: bool) -> Seq<EntryV> {
    let e1 = add_opt(e, "id"@, true);
    let e2 = if iommu {
        add_opt(e1, "iommu"@, true)
    } else {
        e1
    };
    add_opt(add_opt(e2, "pci_segment"@, true), "pci_device_id"@, true)
}

pub fn add_pci_options(parser: &mut OptionParser, iommu: bool)
    ensures
        final(parser)@ == pci_options(old(parser)@, iommu),
{
    parser.add("id");
    if iommu {
        parser.add("iommu");
    }
    parser.add("pci_segment");
    parser.add("pci_device_id");
}

/// The PCI settings that `s` gives; options of other kinds are ignored.
pub open spec fn pci_common_spec(s: Seq<char>) -> Result<PciDeviceCommonConfigSpec, ErrorSpec> {
    match parse_spec(pci_options(Seq::empty(), true), s, true) {
        Err(er) => Err(ErrorSpec::ParsePciDeviceCommonConfig(er)),
        Ok(e) => match conv_toggle(e, "iommu"@) {
            Err(er) => Err(ErrorSpec::ParsePciDeviceCommonConfig(er)),
            Ok(iommu) => match conv_u16(e, "pci_segment"@) {
                Err(er) => Err(ErrorSpec::ParsePciDeviceCommonConfig(er)),
                Ok(seg) => match conv_u8(e, "pci_device_id"@) {
                    Err(er) => Err(ErrorSpec::ParsePciDeviceCommonConfig(er)),
                    Ok(dev) => Ok(
                        PciDeviceCommonConfigSpec {
                            id: opt_get(e, "id"@),
                            iommu: or_default(iommu, false),
                            pci_segment: or_default(seg, 0),
                            pci_device_id: dev,
                        },
                    ),
                },
            },
        },
    }
}

impl PciDeviceCommonConfig {
    /// Parses the PCI settings of a device parameter string.
    pub fn parse(input: &str) -> (r: Result<Self, Error>)
        ensures
            rview(r) == pci_common_spec(input@),
    {
        let mut parser = OptionParser::new();
        add_pci_options(&mut parser, true);
        match parser.parse_subset(input) {
            Ok(()) => {},
            Err(e) => {
                return Err(Error::ParsePciDeviceCommonConfig(e));
            },
        }
        let iommu = match parser.convert_toggle("iommu") {
            Ok(v) => v,
            Err(e) => {
                return Err(Error::ParsePciDeviceCommonConfig(e));
            },
        };
        let pci_segment = match parser.convert_u16("pci_segment") {
            Ok(v) => v,
            Err(e) => {
                return Err(Error::ParsePciDeviceCommonConfig(e));
            },
        };
        let pci_device_id = match parser.convert_u8("pci_device_id") {
            Ok(v) => v,
            Err(e) => {
                return Err(Error::ParsePciDeviceCommonConfig(e));
            },
        };
        Ok(PciDeviceCommonConfig {
            id: parser.get("id"),
            iommu: match iommu {
                Some(b) => b,
                None => false,
            },
            pci_segment: match pci_segment {
                Some(x) => x,
                None => 0,
            },
            pci_device_id,
        })
    }
}

/// What becomes of descriptors read back from a serialized configuration:
/// their numbers are most likely stale, so each reads as -1.
pub fn invalidate_fds(fds: Option<Vec<i32>>) -> (r: Option<Vec<i32>>)
    ensures
        match fds {
            Some(v) => r matches Some(w) && w@ == Seq::new(v@.len(), |i: int| -1i32),
            None => r is None,
        },
{
    match fds {
        Some(v) => {
            let mut w: Vec<i32> = Vec::new();
            let mut i: usize = 0;
            while i < v.len()
                invariant
                    i <= v@.len(),
                    w@ == Seq::new(i as nat, |k: int| -1i32),
                decreases v@.len() - i,
            {
                w.push(-1);
                assert(w@ =~= Seq::new((i + 1) as nat, |k: int| -1i32));
                i = i + 1;
            }
            Some(w)
        },
        None => None,
    }
}

/// What becomes of a descriptor read back from a serialized configuration:
/// its number is most likely stale, so it reads as -1.
pub fn invalidate_fd(fd: Option<i32>) -> (r: Option<i32>)
    ensures
        r == match fd {
            Some(_) => Some(-1i32),
            None => None,
        },
{
    match fd {
        Some(_) => Some(-1),
        None => None,
    }
}

/// The PCI settings of a device string are read from its `id`, `iommu`,
/// `pci_segment` and `pci_device_id` options, other options ignored: they
/// are valid exactly when those options parse and the given values convert,
/// and then the id is the one given, the device is behind the IOMMU exactly
/// when `iommu` is given as on, the segment is the one given (0 when none
/// is) and the device number is the one given, if any.
pub proof fn lemma_pci_common_fields(s: Seq<char>)
    ensures
        pci_common_spec(s) is Ok <==> {
            &&& parse_spec(pci_options(Seq::empty(), true), s, true) is Ok
            &&& {
                let e = parse_spec(pci_options(Seq::empty(), true), s, true)->Ok_0;
                &&& (raw(e, "iommu"@) matches Some(v) ==> toggle_value(v) is Some)
                &&& (raw(e, "pci_segment"@) matches Some(v) ==> u16_value(v) is Some)
                &&& (raw(e, "pci_device_id"@) matches Some(v) ==> u8_value(v) is Some)
            }
        },
        pci_common_spec(s) is Ok ==> {
            let e = parse_spec(pci_options(Seq::empty(), true), s, true)->Ok_0;
            let p = pci_common_spec(s)->Ok_0;
            &&& p.id == opt_get(e, "id"@)
            &&& p.iommu <==> (raw(e, "iommu"@) matches Some(v) && toggle_value(v) == Some(true))
            &&& p.pci_segment == match raw(e, "pci_segment"@) {
                Some(v) => u16_value(v)->Some_0,
                None => 0,
            }
            &&& p.pci_device_id == match raw(e, "pci_device_id"@) {
                Some(v) => u8_value(v),
                None => None,
            }
        },
{
}

} // verus!
