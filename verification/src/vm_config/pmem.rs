//! Persistent memory devices.
use vstd::prelude::*;

use crate::error::{Error, ErrorSpec, or_default, rview};
use crate::option_parser::{add_opt, opt_get, parse_spec, raw, EntryV, OptionParser};
use crate::values::{bytes_value, conv_bytes, conv_toggle, toggle_value};
use crate::vm_config::{
    add_pci_options, pci_common_spec, pci_options, PciDeviceCommonConfig, PciDeviceCommonConfigSpec,
};

verus! {

/// A virtio-pmem device backed by a file.
#[derive(Debug, PartialEq, Eq)]
pub struct PmemConfig {
    pub pci_common: PciDeviceCommonConfig,
    pub file: String,
    pub size: Option<u64>,
    pub discard_writes: bool,
}

pub struct PmemConfigSpec {
    pub pci_common: PciDeviceCommonConfigSpec,
    pub file: Seq<char>,
    pub size: Option<u64>,
    pub discard_writes: bool,
}

impl View for PmemConfig {
    type V = PmemConfigSpec;

    open spec fn view(&self) -> PmemConfigSpec {
        PmemConfigSpec {
            pci_common: self.pci_common@,
            file: self.file@,
            size: self.size,
            discard_writes: self.discard_writes,
        }
    }
}

pub open spec fn pmem_options() -> Seq<EntryV> {
    pci_options(
        add_opt(add_opt(add_opt(Seq::empty(), "size"@, true), "file"@, true), "discard_writes"@, true),
        true,
    )
}

/// The device that `s` describes; `file` is required.
pub open spec fn pmem_spec(s: Seq<char>) -> Result<PmemConfigSpec, ErrorSpec> {
    match parse_spec(pmem_options(), s, false) {
        Err(er) => Err(ErrorSpec::ParsePersistentMemory(er)),
        Ok(e) => match pci_common_spec(s) {
            Err(x) => Err(x),
            Ok(pc) => match opt_get(e, "file"@) {
                None => Err(ErrorSpec::ParsePmemFileMissing),
                Some(file) => match conv_bytes(e, "size"@) {
                    Err(er) => Err(ErrorSpec::ParsePersistentMemory(er)),
                    Ok(size) => match conv_toggle(e, "discard_writes"@) {
                        Err(er) => Err(ErrorSpec::ParsePersistentMemory(er)),
                        Ok(dw) => Ok(
                            PmemConfigSpec {
                                pci_common: pc,
                                file,
                                size,
                                discard_writes: or_default(dw, false),
                            },
                        ),
                    },
                },
            },
        },
    }
}

impl PmemConfig {
    pub const SYNTAX: &'static str = "Persistent memory parameters \
    \"file=<backing_file_path>,size=<persistent_memory_size>,iommu=on|off,\
    discard_writes=on|off,id=<device_id>,\
    pci_segment=<segment_id>,pci_device_id=<pci_slot>\"";

    pub fn parse(pmem: &str) -> (r: Result<Self, Error>)
        ensures
            rview(r) == pmem_spec(pmem@),
    {
        let mut parser = OptionParser::new();
        parser.add("size");
        parser.add("file");
        parser.add("discard_writes");
        add_pci_options(&mut parser, true);
        if let Err(e) = parser.parse(pmem) {
            return Err(Error::ParsePersistentMemory(e));
        }
        let pci_common = PciDeviceCommonConfig::parse(pmem)?;
        let file = match parser.get("file") {
            Some(f) => f,
            None => return Err(Error::ParsePmemFileMissing),
        };
        let size = match parser.convert_bytes("size") {
            Ok(v) => v,
            Err(e) => return Err(Error::ParsePersistentMemory(e)),
        };
        let discard_writes = match parser.convert_toggle("discard_writes") {
            Ok(Some(v)) => v,
            Ok(None) => false,
            Err(e) => return Err(Error::ParsePersistentMemory(e)),
        };
        Ok(PmemConfig { pci_common, file, size, discard_writes })
    }
}

/// A pmem string is accepted exactly when its options parse, its PCI
/// settings are valid, it names a `file`, and a given `size` and
/// `discard_writes` convert; the device then has that file, the byte size
/// given (none when no size is given), writes discarded exactly when
/// `discard_writes` is given as on, and the PCI settings of the string.
pub proof fn lemma_pmem_fields(s: Seq<char>)
    ensures
        pmem_spec(s) is Ok <==> {
            &&& parse_spec(pmem_options(), s, false) is Ok
            &&& pci_common_spec(s) is Ok
            &&& {
                let e = parse_spec(pmem_options(), s, false)->Ok_0;
                &&& opt_get(e, "file"@) is Some
                &&& (raw(e, "size"@) matches Some(v) ==> bytes_value(v) is Some)
                &&& (raw(e, "discard_writes"@) matches Some(v) ==> toggle_value(v) is Some)
            }
        },
        pmem_spec(s) is Ok ==> {
            let e = parse_spec(pmem_options(), s, false)->Ok_0;
            let p = pmem_spec(s)->Ok_0;
            &&& Some(p.file) == opt_get(e, "file"@)
            &&& p.size == match raw(e, "size"@) {
                Some(v) => bytes_value(v),
                None => None,
            }
            &&& p.discard_writes <==> (raw(e, "discard_writes"@) matches Some(v) && toggle_value(v) == Some(true))
            &&& p.pci_common == pci_common_spec(s)->Ok_0
        },
{
}

} // verus!
