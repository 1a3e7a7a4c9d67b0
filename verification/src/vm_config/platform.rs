//! Platform settings: PCI segments, the IOMMU and the SMBIOS strings.
use vstd::prelude::*;

use crate::api::vm_migration::string_opt_view;
use crate::error::{Error, ErrorSpec, or_default, rview};
use crate::option_parser::{add_opt, parse_spec, raw, EntryV, OptErr, OptionParser, OptionParserError};
use crate::text::{string_of, views};
use crate::values::{
    conv_i32, conv_intlist, conv_toggle, conv_u16, conv_u8, given_off, intlist_value, parse_strlist, strlist_value,
    u16_value, u8_value,
};
use crate::vm_config::{DEFAULT_IOMMU_ADDRESS_WIDTH_BITS, DEFAULT_NUM_PCI_SEGMENTS, MAX_IOMMU_ADDRESS_WIDTH_BITS};

verus! {

#[derive(Clone, Debug, PartialEq, Eq)]
pub struct PlatformConfig {
    pub num_pci_segments: u16,
    pub iommu_segments: Option<Vec<u16>>,
    pub iommu_address_width_bits: u8,
    pub system_serial_number: Option<String>,
    pub system_uuid: Option<String>,
    pub oem_strings: Option<Vec<String>>,
    pub system_manufacturer: Option<String>,
    pub system_product_name: Option<String>,
    pub system_version: Option<String>,
    pub system_family: Option<String>,
    pub system_sku_number: Option<String>,
    pub chassis_asset_tag: Option<String>,
    pub iommufd: bool,
    /// A file descriptor of an IOMMU device; one that was deserialized is -1.
    pub iommufd_fd: Option<i32>,
    pub vfio_p2p_dma: bool,
}

pub struct PlatformConfigSpec {
    pub num_pci_segments: u16,
    pub iommu_segments: Option<Seq<u16>>,
    pub iommu_address_width_bits: u8,
    pub system_serial_number: Option<Seq<char>>,
    pub system_uuid: Option<Seq<char>>,
    pub oem_strings: Option<Seq<Seq<char>>>,
    pub system_manufacturer: Option<Seq<char>>,
    pub system_product_name: Option<Seq<char>>,
    pub system_version: Option<Seq<char>>,
    pub system_family: Option<Seq<char>>,
    pub system_sku_number: Option<Seq<char>>,
    pub chassis_asset_tag: Option<Seq<char>>,
    pub iommufd: bool,
    pub iommufd_fd: Option<i32>,
    pub vfio_p2p_dma: bool,
}

pub open spec fn strings_view(v: Seq<String>) -> Seq<Seq<char>> {
    Seq::new(v.len(), |i: int| v[i]@)
}

impl View for PlatformConfig {
    type V = PlatformConfigSpec;

    open spec fn view(&self) -> PlatformConfigSpec {
        PlatformConfigSpec {
            num_pci_segments: self.num_pci_segments,
            iommu_segments: match self.iommu_segments {
                Some(v) => Some(v@),
                None => None,
            },
            iommu_address_width_bits: self.iommu_address_width_bits,
            system_serial_number: string_opt_view(self.system_serial_number),
            system_uuid: string_opt_view(self.system_uuid),
            oem_strings: match self.oem_strings {
                Some(v) => Some(strings_view(v@)),
                None => None,
            },
            system_manufacturer: string_opt_view(self.system_manufacturer),
            system_product_name: string_opt_view(self.system_product_name),
            system_version: string_opt_view(self.system_version),
            system_family: string_opt_view(self.system_family),
            system_sku_number: string_opt_view(self.system_sku_number),
            chassis_asset_tag: string_opt_view(self.chassis_asset_tag),
            iommufd: self.iommufd,
            iommufd_fd: self.iommufd_fd,
            vfio_p2p_dma: self.vfio_p2p_dma,
        }
    }
}

pub open spec fn platform_options() -> Seq<EntryV> {
    let e = add_opt(add_opt(add_opt(Seq::empty(), "num_pci_segments"@, true), "iommu_segments"@, true), "iommu_address_width"@, true);
    let e = add_opt(add_opt(add_opt(e, "serial_number"@, true), "uuid"@, true), "oem_strings"@, true);
    let e = add_opt(add_opt(add_opt(e, "iommufd"@, true), "iommufd_fd"@, true), "vfio_p2p_dma"@, true);
    let e = add_opt(add_opt(add_opt(e, "system_manufacturer"@, true), "system_product_name"@, true), "system_version"@, true);
    let e = add_opt(add_opt(add_opt(e, "system_serial_number"@, true), "system_uuid"@, true), "system_sku_number"@, true);
    add_opt(add_opt(e, "system_family"@, true), "chassis_asset_tag"@, true)
}

/// Each number of the list, truncated to 16 bits.
pub open spec fn as_u16s(s: Seq<u64>) -> Seq<u16> {
    Seq::new(s.len(), |i: int| s[i] as u16)
}

/// The first of two optional values that is present.
pub open spec fn first_of<T>(a: Option<T>, b: Option<T>) -> Option<T> {
    match a {
        Some(x) => Some(x),
        None => b,
    }
}

/// The platform that `s` describes. `iommufd_fd` implies `iommufd` unless
/// that is given; the legacy `serial_number` and `uuid` count where their
/// `system_` forms are absent.
pub open spec fn platform_spec(s: Seq<char>) -> Result<PlatformConfigSpec, ErrorSpec> {
    match parse_spec(platform_options(), s, false) {
        Err(x) => Err(ErrorSpec::ParsePlatform(x)),
        Ok(e) => match platform_numbers(e) {
            Err(x) => Err(ErrorSpec::ParsePlatform(x)),
            Ok(n) => Ok(PlatformConfigSpec {
                num_pci_segments: n.num_pci_segments,
                iommu_segments: n.iommu_segments,
                iommu_address_width_bits: n.iommu_address_width_bits,
                system_serial_number: first_of(raw(e, "system_serial_number"@), raw(e, "serial_number"@)),
                system_uuid: first_of(raw(e, "system_uuid"@), raw(e, "uuid"@)),
                oem_strings: match raw(e, "oem_strings"@) {
                    Some(v) => Some(strlist_value(v)),
                    None => None,
                },
                system_manufacturer: raw(e, "system_manufacturer"@),
                system_product_name: raw(e, "system_product_name"@),
                system_version: raw(e, "system_version"@),
                system_family: raw(e, "system_family"@),
                system_sku_number: raw(e, "system_sku_number"@),
                chassis_asset_tag: raw(e, "chassis_asset_tag"@),
                iommufd: n.iommufd,
                iommufd_fd: n.iommufd_fd,
                vfio_p2p_dma: n.vfio_p2p_dma,
            }),
        },
    }
}

/// The settings of the platform that are not strings.
pub struct PlatformNumbers {
    pub num_pci_segments: u16,
    pub iommu_segments: Option<Seq<u16>>,
    pub iommu_address_width_bits: u8,
    pub iommufd: bool,
    pub iommufd_fd: Option<i32>,
    pub vfio_p2p_dma: bool,
}

/// The settings of `e` that are not strings, converted in the order the
/// parser converts them; the first that fails is the error.
pub open spec fn platform_numbers(e: Seq<EntryV>) -> Result<PlatformNumbers, OptErr> {
    match conv_u16(e, "num_pci_segments"@) {
        Err(x) => Err(x),
        Ok(num) => match conv_intlist(e, "iommu_segments"@) {
            Err(x) => Err(x),
            Ok(segs) => match conv_u8(e, "iommu_address_width"@) {
                Err(x) => Err(x),
                Ok(width) => match conv_i32(e, "iommufd_fd"@) {
                    Err(x) => Err(x),
                    Ok(fd) => match conv_toggle(e, "iommufd"@) {
                        Err(x) => Err(x),
                        Ok(iommufd) => match conv_toggle(e, "vfio_p2p_dma"@) {
                            Err(x) => Err(x),
                            Ok(p2p) => Ok(PlatformNumbers {
                                num_pci_segments: or_default(num, DEFAULT_NUM_PCI_SEGMENTS),
                                iommu_segments: match segs {
                                    Some(l) => Some(as_u16s(l)),
                                    None => None,
                                },
                                iommu_address_width_bits: or_default(width, MAX_IOMMU_ADDRESS_WIDTH_BITS),
                                iommufd: or_default(iommufd, fd is Some),
                                iommufd_fd: fd,
                                vfio_p2p_dma: or_default(p2p, true),
                            }),
                        },
                    },
                },
            },
        },
    }
}

/// `iommufd` is the value given for it, and where none is given it is on
/// exactly when an `iommufd_fd` is given; `iommufd_fd` is the descriptor
/// given, if any.
pub proof fn lemma_platform_iommufd(s: Seq<char>)
    requires
        platform_spec(s) is Ok,
    ensures
        ({
            let e = parse_spec(platform_options(), s, false)->Ok_0;
            let p = platform_spec(s)->Ok_0;
            &&& conv_toggle(e, "iommufd"@) is Ok
            &&& conv_i32(e, "iommufd_fd"@) is Ok
            &&& p.iommufd_fd == conv_i32(e, "iommufd_fd"@)->Ok_0
            &&& p.iommufd == match conv_toggle(e, "iommufd"@)->Ok_0 {
                Some(t) => t,
                None => p.iommufd_fd is Some,
            }
        }),
{
}

/// The serial number and the UUID come from their `system_` keys, and from
/// the shorter `serial_number` and `uuid` keys only where the `system_` key
/// is absent; the other SMBIOS strings are the values given for their keys.
pub proof fn lemma_platform_smbios_aliases(s: Seq<char>)
    requires
        platform_spec(s) is Ok,
    ensures
        ({
            let e = parse_spec(platform_options(), s, false)->Ok_0;
            let p = platform_spec(s)->Ok_0;
            &&& p.system_serial_number == match raw(e, "system_serial_number"@) {
                Some(v) => Some(v),
                None => raw(e, "serial_number"@),
            }
            &&& p.system_uuid == match raw(e, "system_uuid"@) {
                Some(v) => Some(v),
                None => raw(e, "uuid"@),
            }
            &&& p.system_manufacturer == raw(e, "system_manufacturer"@)
            &&& p.system_product_name == raw(e, "system_product_name"@)
            &&& p.system_version == raw(e, "system_version"@)
            &&& p.system_family == raw(e, "system_family"@)
            &&& p.system_sku_number == raw(e, "system_sku_number"@)
            &&& p.chassis_asset_tag == raw(e, "chassis_asset_tag"@)
        }),
{
}

/// A parsed platform has the number of PCI segments given (one when none
/// is), the IOMMU segments given, each truncated to 16 bits, the IOMMU
/// address width given (64 bits when none is), the OEM strings given, and
/// peer-to-peer DMA unless `vfio_p2p_dma` is given as off.
pub proof fn lemma_platform_numbers(s: Seq<char>)
    ensures
        platform_spec(s) is Ok ==> {
            let e = parse_spec(platform_options(), s, false)->Ok_0;
            let p = platform_spec(s)->Ok_0;
            &&& p.num_pci_segments == match raw(e, "num_pci_segments"@) {
                Some(v) => u16_value(v)->Some_0,
                None => 1u16,
            }
            &&& p.iommu_segments == match raw(e, "iommu_segments"@) {
                Some(v) => Some(as_u16s(intlist_value(v)->Some_0)),
                None => None,
            }
            &&& p.iommu_address_width_bits == match raw(e, "iommu_address_width"@) {
                Some(v) => u8_value(v)->Some_0,
                None => 64u8,
            }
            &&& p.oem_strings == match raw(e, "oem_strings"@) {
                Some(v) => Some(strlist_value(v)),
                None => None,
            }
            &&& p.vfio_p2p_dma == !given_off(e, "vfio_p2p_dma"@)
        },
{
}

fn truncate_u16s(v: &Vec<u64>) -> (r: Vec<u16>)
    ensures
        r@ == as_u16s(v@),
{
    let mut r: Vec<u16> = Vec::new();
    let mut i: usize = 0;
    while i < v.len()
        invariant
            i <= v@.len(),
            r@ == as_u16s(v@.subrange(0, i as int)),
        decreases v@.len() - i,
    {
        r.push(v[i] as u16);
        assert(r@ =~= as_u16s(v@.subrange(0, i as int + 1)));
        i = i + 1;
    }
    assert(v@.subrange(0, v@.len() as int) =~= v@);
    r
}

fn strings_of(v: &Vec<Vec<char>>) -> (r: Vec<String>)
    ensures
        strings_view(r@) == views(v@),
{
    let mut r: Vec<String> = Vec::new();
    let mut i: usize = 0;
    while i < v.len()
        invariant
            i <= v@.len(),
            r@.len() == i,
            strings_view(r@) == views(v@.subrange(0, i as int)),
        decreases v@.len() - i,
    {
        let s = string_of(&v[i]);
        let ghost old_r = r@;
        let ghost sg = s;
        assert(sg@ == v@[i as int]@);
        r.push(s);
        assert(r@ == old_r.push(sg));
        assert(r@.len() == i + 1);
        assert(r@[i as int]@ == sg@);
        assert forall|j: int| 0 <= j < i + 1 implies #[trigger] strings_view(r@)[j] == views(
            v@.subrange(0, i as int + 1),
        )[j] by {
            if j < i {
                assert(strings_view(old_r)[j] == views(v@.subrange(0, i as int))[j]);
            }
        }
        assert(strings_view(r@) =~= views(v@.subrange(0, i as int + 1)));
        i = i + 1;
    }
    assert(v@.subrange(0, v@.len() as int) =~= v@);
    r
}

fn either(a: Option<String>, b: Option<String>) -> (r: Option<String>)
    ensures
        string_opt_view(r) == first_of(string_opt_view(a), string_opt_view(b)),
{
    match a {
        Some(x) => Some(x),
        None => b,
    }
}

fn parse_numbers(parser: &OptionParser) -> (r: Result<(u16, Option<Vec<u16>>, u8, Option<i32>, bool, bool), OptionParserError>)
    ensures
        match platform_numbers(parser@) {
            Ok(n) => r matches Ok(x) && n == (PlatformNumbers {
                num_pci_segments: x.0,
                iommu_segments: match x.1 {
                    Some(v) => Some(v@),
                    None => None,
                },
                iommu_address_width_bits: x.2,
                iommufd_fd: x.3,
                iommufd: x.4,
                vfio_p2p_dma: x.5,
            }),
            Err(er) => r matches Err(y) && y@ == er,
        },
{
    let num_pci_segments = match parser.convert_u16("num_pci_segments") {
        Ok(Some(v)) => v,
        Ok(None) => DEFAULT_NUM_PCI_SEGMENTS,
        Err(e) => return Err(e),
    };
    let iommu_segments = match parser.convert_intlist("iommu_segments") {
        Ok(Some(l)) => Some(truncate_u16s(&l)),
        Ok(None) => None,
        Err(e) => return Err(e),
    };
    let iommu_address_width_bits = match parser.convert_u8("iommu_address_width") {
        Ok(Some(v)) => v,
        Ok(None) => MAX_IOMMU_ADDRESS_WIDTH_BITS,
        Err(e) => return Err(e),
    };
    let iommufd_fd = match parser.convert_i32("iommufd_fd") {
        Ok(v) => v,
        Err(e) => return Err(e),
    };
    let iommufd = match parser.convert_toggle("iommufd") {
        Ok(Some(b)) => b,
        Ok(None) => iommufd_fd.is_some(),
        Err(e) => return Err(e),
    };
    let vfio_p2p_dma = match parser.convert_toggle("vfio_p2p_dma") {
        Ok(Some(b)) => b,
        Ok(None) => true,
        Err(e) => return Err(e),
    };
    Ok((num_pci_segments, iommu_segments, iommu_address_width_bits, iommufd_fd, iommufd, vfio_p2p_dma))
}

impl PlatformConfig {
    /// The syntax of the platform parameters.
    pub fn syntax() -> (r: &'static str)
        ensures
            r@ == platform_syntax(),
    {
        "Platform configuration parameters \"num_pci_segments=<num_pci_segments>,iommu_segments=<list_of_segments>,iommu_address_width=<bits>,iommufd=on|off,iommufd_fd=<fd>,vfio_p2p_dma=on|off,system_manufacturer=<dmi_system_manufacturer>,system_product_name=<dmi_system_product_name>,system_version=<dmi_system_version>,system_serial_number=<dmi_system_serial_number>,system_uuid=<dmi_system_uuid>,system_sku_number=<dmi_system_sku_number>,system_family=<dmi_system_family>,oem_strings=<list_of_strings>,chassis_asset_tag=<dmi_chassis_asset_tag>\""
    }

    pub fn parse(platform: &str) -> (r: Result<Self, Error>)
        ensures
            rview(r) == platform_spec(platform@),
    {
        let mut parser = OptionParser::new();
        parser.add("num_pci_segments");
        parser.add("iommu_segments");
        parser.add("iommu_address_width");
        parser.add("serial_number");
        parser.add("uuid");
        parser.add("oem_strings");
        parser.add("iommufd");
        parser.add("iommufd_fd");
        parser.add("vfio_p2p_dma");
        parser.add("system_manufacturer");
        parser.add("system_product_name");
        parser.add("system_version");
        parser.add("system_serial_number");
        parser.add("system_uuid");
        parser.add("system_sku_number");
        parser.add("system_family");
        parser.add("chassis_asset_tag");
        if let Err(e) = parser.parse(platform) {
            return Err(Error::ParsePlatform(e));
        }
        let (num_pci_segments, iommu_segments, iommu_address_width_bits, iommufd_fd, iommufd, vfio_p2p_dma) =
            match parse_numbers(&parser) {
            Ok(n) => n,
            Err(e) => return Err(Error::ParsePlatform(e)),
        };
        let oem_strings = match parser.raw("oem_strings") {
            Some(v) => {
                let l = parse_strlist(&v);
                Some(strings_of(&l))
            },
            None => None,
        };
        let system_serial_number = either(
            parser.convert_string("system_serial_number"),
            parser.convert_string("serial_number"),
        );
        let system_uuid = either(parser.convert_string("system_uuid"), parser.convert_string("uuid"));
        Ok(PlatformConfig {
            num_pci_segments,
            iommu_segments,
            iommu_address_width_bits,
            system_serial_number,
            system_uuid,
            oem_strings,
            system_manufacturer: parser.convert_string("system_manufacturer"),
            system_product_name: parser.convert_string("system_product_name"),
            system_version: parser.convert_string("system_version"),
            system_family: parser.convert_string("system_family"),
            system_sku_number: parser.convert_string("system_sku_number"),
            chassis_asset_tag: parser.convert_string("chassis_asset_tag"),
            iommufd,
            iommufd_fd,
            vfio_p2p_dma,
        })
    }
}

pub open spec fn platform_syntax() -> Seq<char> {
    "Platform configuration parameters \"num_pci_segments=<num_pci_segments>,iommu_segments=<list_of_segments>,iommu_address_width=<bits>,iommufd=on|off,iommufd_fd=<fd>,vfio_p2p_dma=on|off,system_manufacturer=<dmi_system_manufacturer>,system_product_name=<dmi_system_product_name>,system_version=<dmi_system_version>,system_serial_number=<dmi_system_serial_number>,system_uuid=<dmi_system_uuid>,system_sku_number=<dmi_system_sku_number>,system_family=<dmi_system_family>,oem_strings=<list_of_strings>,chassis_asset_tag=<dmi_chassis_asset_tag>\""@
}

/// One PCI segment unless given otherwise.
pub fn default_platformconfig_num_pci_segments() -> (r: u16)
    ensures
        r == DEFAULT_NUM_PCI_SEGMENTS,
{
    DEFAULT_NUM_PCI_SEGMENTS
}

/// A 64-bit IOMMU address width unless given otherwise.
pub fn default_platformconfig_iommu_address_width_bits() -> (r: u8)
    ensures
        r == DEFAULT_IOMMU_ADDRESS_WIDTH_BITS,
{
    DEFAULT_IOMMU_ADDRESS_WIDTH_BITS
}

/// Peer-to-peer DMA between VFIO devices is on unless given otherwise.
pub fn default_platformconfig_vfio_p2p_dma() -> (r: bool)
    ensures
        r,
{
    true
}

/// The system information of the SMBIOS tables.
#[derive(Debug, PartialEq, Eq)]
pub struct SmbiosSystem {
    pub manufacturer: Option<String>,
    pub product_name: Option<String>,
    pub version: Option<String>,
    pub serial_number: Option<String>,
    pub uuid: Option<String>,
    pub sku_number: Option<String>,
    pub family: Option<String>,
}

/// The chassis information of the SMBIOS tables.
#[derive(Debug, PartialEq, Eq)]
pub struct SmbiosChassisConfig {
    pub asset_tag: Option<String>,
}

/// What the SMBIOS tables of the guest describe.
#[derive(Debug, PartialEq, Eq)]
pub struct SmbiosConfig {
    pub system: Option<SmbiosSystem>,
    pub chassis: Option<SmbiosChassisConfig>,
    pub oem_strings: Vec<String>,
}

impl SmbiosConfig {
    /// Whether the tables would describe nothing.
    pub fn is_empty(&self) -> (r: bool)
        ensures
            r == (self.system is None && self.chassis is None && self.oem_strings@.len() == 0),
    {
        self.system.is_none() && self.chassis.is_none() && self.oem_strings.len() == 0
    }
}

/// One of the system fields of the platform is set.
pub open spec fn has_smbios_system(p: PlatformConfig) -> bool {
    ||| p.system_serial_number is Some
    ||| p.system_uuid is Some
    ||| p.system_manufacturer is Some
    ||| p.system_product_name is Some
    ||| p.system_version is Some
    ||| p.system_family is Some
    ||| p.system_sku_number is Some
}

/// The system information that the platform gives.
pub open spec fn smbios_system_of(p: PlatformConfig) -> Option<SmbiosSystem> {
    if has_smbios_system(p) {
        Some(SmbiosSystem {
            manufacturer: p.system_manufacturer,
            product_name: p.system_product_name,
            version: p.system_version,
            serial_number: p.system_serial_number,
            uuid: p.system_uuid,
            sku_number: p.system_sku_number,
            family: p.system_family,
        })
    } else {
        None
    }
}

/// The chassis information that the platform gives.
pub open spec fn smbios_chassis_of(p: PlatformConfig) -> Option<SmbiosChassisConfig> {
    match p.chassis_asset_tag {
        Some(t) => Some(SmbiosChassisConfig { asset_tag: Some(t) }),
        None => None,
    }
}

/// The OEM strings that the platform gives; none when it gives no list.
pub open spec fn smbios_oem_strings_of(p: PlatformConfig) -> Seq<String> {
    match p.oem_strings {
        Some(v) => v@,
        None => Seq::empty(),
    }
}

fn copy_opt_string(o: &Option<String>) -> (r: Option<String>)
    ensures
        r == *o,
{
    match o {
        Some(s) => Some(s.clone()),
        None => None,
    }
}

fn copy_strings(v: &Vec<String>) -> (r: Vec<String>)
    ensures
        r@ == v@,
{
    let mut out: Vec<String> = Vec::new();
    let mut i: usize = 0;
    while i < v.len()
        invariant
            i <= v@.len(),
            out@ == v@.take(i as int),
        decreases v@.len() - i,
    {
        out.push(v[i].clone());
        assert(out@ =~= v@.take(i + 1));
        i = i + 1;
    }
    assert(v@.take(v@.len() as int) =~= v@);
    out
}

impl PlatformConfig {
    /// The SMBIOS tables of the platform: the system information when a
    /// system field is set, the chassis information when the asset tag is,
    /// and the OEM strings; none when all of them are missing or empty.
    pub fn smbios_config(&self) -> (r: Option<SmbiosConfig>)
        ensures
            r is None <==> (smbios_system_of(*self) is None && smbios_chassis_of(*self) is None
                && smbios_oem_strings_of(*self).len() == 0),
            r matches Some(c) ==> {
                &&& c.system == smbios_system_of(*self)
                &&& c.chassis == smbios_chassis_of(*self)
                &&& c.oem_strings@ == smbios_oem_strings_of(*self)
            },
    {
        let has_system = self.system_serial_number.is_some() || self.system_uuid.is_some()
            || self.system_manufacturer.is_some() || self.system_product_name.is_some()
            || self.system_version.is_some() || self.system_family.is_some()
            || self.system_sku_number.is_some();
        let system = if has_system {
            Some(SmbiosSystem {
                manufacturer: copy_opt_string(&self.system_manufacturer),
                product_name: copy_opt_string(&self.system_product_name),
                version: copy_opt_string(&self.system_version),
                serial_number: copy_opt_string(&self.system_serial_number),
                uuid: copy_opt_string(&self.system_uuid),
                sku_number: copy_opt_string(&self.system_sku_number),
                family: copy_opt_string(&self.system_family),
            })
        } else {
            None
        };
        let chassis = match &self.chassis_asset_tag {
            Some(t) => Some(SmbiosChassisConfig { asset_tag: Some(t.clone()) }),
            None => None,
        };
        let oem_strings = match &self.oem_strings {
            Some(v) => copy_strings(v),
            None => Vec::new(),
        };
        let smbios = SmbiosConfig { system, chassis, oem_strings };
        if smbios.is_empty() {
            None
        } else {
            Some(smbios)
        }
    }
}

} // verus!
