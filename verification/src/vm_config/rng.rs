//! The entropy device.
use vstd::prelude::*;

use crate::error::{Error, ErrorSpec, rview};
use crate::option_parser::{add_opt, opt_get, parse_spec, OptionParser};
use crate::text::string_from;
use crate::vm_config::{
    add_pci_options, pci_common_spec, pci_options, PciDeviceCommonConfig, PciDeviceCommonConfigSpec,
};

verus! {

/// A virtio-rng device reading from a host entropy source.
#[derive(Debug, PartialEq, Eq)]
pub struct RngConfig {
    pub pci_common: PciDeviceCommonConfig,
    pub src: String,
}

pub struct RngConfigSpec {
    pub pci_common: PciDeviceCommonConfigSpec,
    pub src: Seq<char>,
}

impl View for RngConfig {
    type V = RngConfigSpec;

    open spec fn view(&self) -> RngConfigSpec {
        RngConfigSpec { pci_common: self.pci_common@, src: self.src@ }
    }
}

/// The entropy source used when none is given.
pub const DEFAULT_RNG_SOURCE: &'static str = "/dev/urandom";

/// The device that `s` describes; `src` defaults to `/dev/urandom`.
pub open spec fn rng_spec(s: Seq<char>) -> Result<RngConfigSpec, ErrorSpec> {
    match parse_spec(pci_options(add_opt(Seq::empty(), "src"@, true), true), s, false) {
        Err(er) => Err(ErrorSpec::ParseRng(er)),
        Ok(e) => match pci_common_spec(s) {
            Err(x) => Err(x),
            Ok(pc) => Ok(
                RngConfigSpec {
                    pci_common: pc,
                    src: match opt_get(e, "src"@) {
                        Some(v) => v,
                        None => DEFAULT_RNG_SOURCE@,
                    },
                },
            ),
        },
    }
}

impl RngConfig {
    pub const SYNTAX: &'static str = "Random number generator parameters \"\
        src=<entropy_source_path>,iommu=on|off,pci_segment=<segment_id>,\
        pci_device_id=<pci_slot>\"";

    pub fn parse(rng: &str) -> (r: Result<Self, Error>)
        ensures
            rview(r) == rng_spec(rng@),
    {
        let mut parser = OptionParser::new();
        parser.add("src");
        add_pci_options(&mut parser, true);
        if let Err(e) = parser.parse(rng) {
            return Err(Error::ParseRng(e));
        }
        let src = match parser.get("src") {
            Some(s) => s,
            None => string_from(DEFAULT_RNG_SOURCE),
        };
        let pci_common = PciDeviceCommonConfig::parse(rng)?;
        Ok(RngConfig { src, pci_common })
    }
}

impl Default for RngConfig {
    fn default() -> (r: Self)
        ensures
            r@ == (RngConfigSpec {
                pci_common: PciDeviceCommonConfigSpec {
                    id: None,
                    iommu: false,
                    pci_segment: 0,
                    pci_device_id: None,
                },
                src: DEFAULT_RNG_SOURCE@,
            }),
    {
        RngConfig {
            src: string_from(DEFAULT_RNG_SOURCE),
            pci_common: PciDeviceCommonConfig { id: None, iommu: false, pci_segment: 0, pci_device_id: None },
        }
    }
}

/// A parsed entropy device reads the source given, `/dev/urandom` when none
/// is, and has the PCI settings of the string.
pub proof fn lemma_rng_fields(s: Seq<char>)
    ensures
        rng_spec(s) is Ok <==> (parse_spec(pci_options(add_opt(Seq::empty(), "src"@, true), true), s, false) is Ok
            && pci_common_spec(s) is Ok),
        rng_spec(s) is Ok ==> {
            let e = parse_spec(pci_options(add_opt(Seq::empty(), "src"@, true), true), s, false)->Ok_0;
            &&& rng_spec(s)->Ok_0.src == match opt_get(e, "src"@) {
                Some(v) => v,
                None => "/dev/urandom"@,
            }
            &&& rng_spec(s)->Ok_0.pci_common == pci_common_spec(s)->Ok_0
        },
{
}

} // verus!
