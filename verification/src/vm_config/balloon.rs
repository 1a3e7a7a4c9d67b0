//! The memory balloon device.
use vstd::prelude::*;

use crate::error::{Error, ErrorSpec, or_default, rview};
use crate::option_parser::{add_opt, parse_spec, raw, EntryV, OptionParser};
use crate::values::{bytes_ok, bytes_value, conv_bytes, conv_toggle, given_on, toggle_ok};
use crate::vm_config::{
    add_pci_options, pci_common_spec, pci_options, PciDeviceCommonConfig,
    PciDeviceCommonConfigSpec,
};

verus! {

#[derive(Debug, PartialEq, Eq)]
pub struct BalloonConfig {
    pub pci_common: PciDeviceCommonConfig,
    pub size: u64,
    /// Option to deflate the balloon in case the guest is out of memory.
    pub deflate_on_oom: bool,
    /// Option to enable free page reporting from the guest.
    pub free_page_reporting: bool,
}

pub struct BalloonConfigSpec {
    pub pci_common: PciDeviceCommonConfigSpec,
    pub size: u64,
    pub deflate_on_oom: bool,
    pub free_page_reporting: bool,
}

impl View for BalloonConfig {
    type V = BalloonConfigSpec;

    open spec fn view(&self) -> BalloonConfigSpec {
        BalloonConfigSpec {
            pci_common: self.pci_common@,
            size: self.size,
            deflate_on_oom: self.deflate_on_oom,
            free_page_reporting: self.free_page_reporting,
        }
    }
}

pub open spec fn balloon_options() -> Seq<EntryV> {
    pci_options(
        add_opt(
            add_opt(add_opt(Seq::empty(), "size"@, true), "deflate_on_oom"@, true),
            "free_page_reporting"@,
            true,
        ),
        true,
    )
}

/// The balloon that `s` describes: `size` is a byte size (0 when absent),
/// the two toggles default to off.
pub open spec fn balloon_spec(s: Seq<char>) -> Result<BalloonConfigSpec, ErrorSpec> {
    match parse_spec(balloon_options(), s, false) {
        Err(er) => Err(ErrorSpec::ParseBalloon(er)),
        Ok(e) => match conv_bytes(e, "size"@) {
            Err(er) => Err(ErrorSpec::ParseBalloon(er)),
            Ok(size) => match conv_toggle(e, "deflate_on_oom"@) {
                Err(er) => Err(ErrorSpec::ParseBalloon(er)),
                Ok(deflate) => match conv_toggle(e, "free_page_reporting"@) {
                    Err(er) => Err(ErrorSpec::ParseBalloon(er)),
                    Ok(fpr) => match pci_common_spec(s) {
                        Err(x) => Err(x),
                        Ok(pc) => Ok(
                            BalloonConfigSpec {
                                pci_common: pc,
                                size: or_default(size, 0),
                                deflate_on_oom: or_default(deflate, false),
                                free_page_reporting: or_default(fpr, false),
                            },
                        ),
                    },
                },
            },
        },
    }
}

impl BalloonConfig {
    pub const SYNTAX: &'static str = "Balloon parameters \"size=<balloon_size>,deflate_on_oom=on|off,\
        free_page_reporting=on|off,iommu=on|off,id=<device_id>,pci_segment=<segment_id>,\
        pci_device_id=<pci_slot>\"";

    pub fn parse(balloon: &str) -> (r: Result<Self, Error>)
        ensures
            rview(r) == balloon_spec(balloon@),
    {
        let mut parser = OptionParser::new();
        parser.add("size");
        parser.add("deflate_on_oom");
        parser.add("free_page_reporting");
        add_pci_options(&mut parser, true);
        if let Err(e) = parser.parse(balloon) {
            return Err(Error::ParseBalloon(e));
        }
        let size = match parser.convert_bytes("size") {
            Ok(v) => v,
            Err(e) => return Err(Error::ParseBalloon(e)),
        };
        let deflate_on_oom = match parser.convert_toggle("deflate_on_oom") {
            Ok(v) => v,
            Err(e) => return Err(Error::ParseBalloon(e)),
        };
        let free_page_reporting = match parser.convert_toggle("free_page_reporting") {
            Ok(v) => v,
            Err(e) => return Err(Error::ParseBalloon(e)),
        };
        let pci_common = PciDeviceCommonConfig::parse(balloon)?;
        Ok(BalloonConfig {
            pci_common,
            size: match size {
                Some(v) => v,
                None => 0,
            },
            deflate_on_oom: match deflate_on_oom {
                Some(v) => v,
                None => false,
            },
            free_page_reporting: match free_page_reporting {
                Some(v) => v,
                None => false,
            },
        })
    }
}

/// A balloon string is accepted exactly when its options parse, the values
/// given convert and its PCI settings are valid; the balloon then has the
/// byte size given (0 when none is), each toggle exactly when it is given as
/// on, and the PCI settings of the string.
pub proof fn lemma_balloon_fields(s: Seq<char>)
    ensures
        balloon_spec(s) is Ok <==> {
            let p = parse_spec(balloon_options(), s, false);
            &&& p is Ok
            &&& bytes_ok(p->Ok_0, "size"@)
            &&& toggle_ok(p->Ok_0, "deflate_on_oom"@)
            &&& toggle_ok(p->Ok_0, "free_page_reporting"@)
            &&& pci_common_spec(s) is Ok
        },
        balloon_spec(s) is Ok ==> {
            let e = parse_spec(balloon_options(), s, false)->Ok_0;
            let b = balloon_spec(s)->Ok_0;
            &&& b.size == match raw(e, "size"@) {
                Some(v) => bytes_value(v)->Some_0,
                None => 0,
            }
            &&& b.deflate_on_oom == given_on(e, "deflate_on_oom"@)
            &&& b.free_page_reporting == given_on(e, "free_page_reporting"@)
            &&& b.pci_common == pci_common_spec(s)->Ok_0
        },
{
}

} // verus!
