//! Assigned, user-space, vDPA, vsock, RTC, TPM and ivshmem devices, PCI
//! segments and Landlock rules.
use vstd::prelude::*;

use crate::error::{Error, ErrorSpec, or_default, rview};
use crate::option_parser::{
    add_opt, lemma_unknown_option_untouched, lookup, opt_get, parse_spec, raw, EntryV, OptErr, OptionParser,
    OptionParserError,
};
use crate::values::{
    bytes_value, conv_bytes, conv_i32, conv_intlist, conv_u16, conv_u32, conv_u8, conv_usize, given_i32, given_u32,
    given_u8, intlist_value, u16_value, u32_value, usize_value,
};
use crate::vm_config::{
    add_pci_options, pci_common_spec, pci_options, str_opt_view, PciDeviceCommonConfig,
    PciDeviceCommonConfigSpec, DEFAULT_IVSHMEM_SIZE, DEFAULT_PCI_SEGMENT_APERTURE_WEIGHT,
};

verus! {

/// A host device assigned to the guest (VFIO).
#[derive(Debug, PartialEq, Eq)]
pub struct DeviceConfig {
    pub pci_common: PciDeviceCommonConfig,
    pub path: Option<String>,
    /// A file descriptor of the VFIO device, when it was opened outside.
    pub fd: Option<i32>,
    pub x_nv_gpudirect_clique: Option<u8>,
    pub x_exclude_mmap_bars: Vec<u64>,
}

pub struct DeviceConfigSpec {
    pub pci_common: PciDeviceCommonConfigSpec,
    pub path: Option<Seq<char>>,
    pub fd: Option<i32>,
    pub x_nv_gpudirect_clique: Option<u8>,
    pub x_exclude_mmap_bars: Seq<u64>,
}

impl View for DeviceConfig {
    type V = DeviceConfigSpec;

    open spec fn view(&self) -> DeviceConfigSpec {
        DeviceConfigSpec {
            pci_common: self.pci_common@,
            path: str_opt_view(self.path),
            fd: self.fd,
            x_nv_gpudirect_clique: self.x_nv_gpudirect_clique,
            x_exclude_mmap_bars: self.x_exclude_mmap_bars@,
        }
    }
}

pub open spec fn device_options() -> Seq<EntryV> {
    add_opt(
        add_opt(pci_options(add_opt(add_opt(Seq::empty(), "path"@, true), "fd"@, true), true), "x_nv_gpudirect_clique"@, true),
        "x_exclude_mmap_bars"@,
        true,
    )
}

/// The assigned device that `s` describes; the excluded BARs default to
/// none.
pub open spec fn device_spec(s: Seq<char>) -> Result<DeviceConfigSpec, ErrorSpec> {
    match parse_spec(device_options(), s, false) {
        Err(er) => Err(ErrorSpec::ParseDevice(er)),
        Ok(e) => match pci_common_spec(s) {
            Err(x) => Err(x),
            Ok(pc) => match conv_i32(e, "fd"@) {
                Err(er) => Err(ErrorSpec::ParseDevice(er)),
                Ok(fd) => match conv_u8(e, "x_nv_gpudirect_clique"@) {
                    Err(er) => Err(ErrorSpec::ParseDevice(er)),
                    Ok(clique) => match conv_intlist(e, "x_exclude_mmap_bars"@) {
                        Err(er) => Err(ErrorSpec::ParseDevice(er)),
                        Ok(bars) => Ok(
                            DeviceConfigSpec {
                                pci_common: pc,
                                path: opt_get(e, "path"@),
                                fd,
                                x_nv_gpudirect_clique: clique,
                                x_exclude_mmap_bars: or_default(bars, Seq::empty()),
                            },
                        ),
                    },
                },
            },
        },
    }
}

impl DeviceConfig {
    pub const SYNTAX: &'static str = "Direct device assignment parameters \
    \"path=<device_path>,fd=<vfio_cdev_fd>,iommu=on|off,id=<device_id>,\
    pci_segment=<segment_id>,pci_device_id=<pci_slot>,\
    x_nv_gpudirect_clique=<clique_id>,\
    x_exclude_mmap_bars=[<bar>...]\"";

    pub fn parse(device: &str) -> (r: Result<Self, Error>)
        ensures
            rview(r) == device_spec(device@),
    {
        let mut parser = OptionParser::new();
        parser.add("path");
        parser.add("fd");
        add_pci_options(&mut parser, true);
        parser.add("x_nv_gpudirect_clique");
        parser.add("x_exclude_mmap_bars");
        if let Err(e) = parser.parse(device) {
            return Err(Error::ParseDevice(e));
        }
        let pci_common = PciDeviceCommonConfig::parse(device)?;
        let path = parser.get("path");
        let fd = match parser.convert_i32("fd") {
            Ok(v) => v,
            Err(e) => return Err(Error::ParseDevice(e)),
        };
        let x_nv_gpudirect_clique = match parser.convert_u8("x_nv_gpudirect_clique") {
            Ok(v) => v,
            Err(e) => return Err(Error::ParseDevice(e)),
        };
        let x_exclude_mmap_bars = match parser.convert_intlist("x_exclude_mmap_bars") {
            Ok(Some(v)) => v,
            Ok(None) => Vec::new(),
            Err(e) => return Err(Error::ParseDevice(e)),
        };
        proof {
            if conv_intlist(parser@, "x_exclude_mmap_bars"@) == Ok::<Option<Seq<u64>>, OptErr>(None) {
                assert(x_exclude_mmap_bars@ =~= Seq::<u64>::empty());
            }
        }
        Ok(DeviceConfig { pci_common, path, fd, x_nv_gpudirect_clique, x_exclude_mmap_bars })
    }
}

/// A device emulated by a user-space process behind a socket.
#[derive(Debug, PartialEq, Eq)]
pub struct UserDeviceConfig {
    pub pci_common: PciDeviceCommonConfig,
    pub socket: String,
}

pub struct UserDeviceConfigSpec {
    pub pci_common: PciDeviceCommonConfigSpec,
    pub socket: Seq<char>,
}

impl View for UserDeviceConfig {
    type V = UserDeviceConfigSpec;

    open spec fn view(&self) -> UserDeviceConfigSpec {
        UserDeviceConfigSpec { pci_common: self.pci_common@, socket: self.socket@ }
    }
}

/// The user device that `s` describes; `socket` is required.
pub open spec fn user_device_spec(s: Seq<char>) -> Result<UserDeviceConfigSpec, ErrorSpec> {
    match parse_spec(pci_options(add_opt(Seq::empty(), "socket"@, true), false), s, false) {
        Err(er) => Err(ErrorSpec::ParseUserDevice(er)),
        Ok(e) => match pci_common_spec(s) {
            Err(x) => Err(x),
            Ok(pc) => match opt_get(e, "socket"@) {
                None => Err(ErrorSpec::ParseUserDeviceSocketMissing),
                Some(sock) => Ok(UserDeviceConfigSpec { pci_common: pc, socket: sock }),
            },
        },
    }
}

/// A user device takes no `iommu` option, so one that is accepted is never
/// behind the IOMMU; its `socket` is the one given, and a description with
/// valid PCI settings but no `socket` is refused with
/// `ParseUserDeviceSocketMissing`.
pub proof fn lemma_user_device(s: Seq<char>)
    ensures
        user_device_spec(s) is Ok ==> !user_device_spec(s)->Ok_0.pci_common.iommu,
        user_device_spec(s) is Ok ==> Some(user_device_spec(s)->Ok_0.socket) == opt_get(
            parse_spec(pci_options(add_opt(Seq::empty(), "socket"@, true), false), s, false)->Ok_0,
            "socket"@,
        ),
        ({
            let p = parse_spec(pci_options(add_opt(Seq::empty(), "socket"@, true), false), s, false);
            p is Ok && pci_common_spec(s) is Ok && opt_get(p->Ok_0, "socket"@) is None
        }) ==> user_device_spec(s) == Err::<UserDeviceConfigSpec, ErrorSpec>(ErrorSpec::ParseUserDeviceSocketMissing),
{
    let strict = pci_options(add_opt(Seq::empty(), "socket"@, true), false);
    let lenient = pci_options(Seq::empty(), true);
    if user_device_spec(s) is Ok {
        reveal_strlit("iommu");
        reveal_strlit("socket");
        reveal_strlit("id");
        reveal_strlit("pci_segment");
        reveal_strlit("pci_device_id");
        assert(lookup(strict, "iommu"@) is None) by {
            assert("iommu"@.len() == 5 && "socket"@.len() == 6 && "id"@.len() == 2);
            assert("pci_segment"@.len() == 11 && "pci_device_id"@.len() == 13);
            let e0 = add_opt(Seq::empty(), "socket"@, true);
            let e1 = add_opt(e0, "id"@, true);
            let e2 = add_opt(e1, "pci_segment"@, true);
            assert(strict == add_opt(e2, "pci_device_id"@, true));
            assert(strict.drop_last() =~= e2);
            assert(e2.drop_last() =~= e1);
            assert(e1.drop_last() =~= e0);
            assert(e0.drop_last() =~= Seq::<EntryV>::empty());
            assert(lookup(Seq::<EntryV>::empty(), "iommu"@) is None);
            assert(e0.last().name == "socket"@);
            assert(e0.last().name != "iommu"@);
            assert(lookup(e0, "iommu"@) is None);
            assert(lookup(e1, "iommu"@) is None);
            assert(lookup(e2, "iommu"@) is None);
        }
        assert(lookup(lenient, "iommu"@) == Some(EntryV { name: "iommu"@, requires_value: true, value: None })) by {
            reveal_with_fuel(lookup, 4);
        }
        lemma_unknown_option_untouched(strict, lenient, s, "iommu"@);
    }
}

impl UserDeviceConfig {
    pub const SYNTAX: &'static str = "Userspace device socket=<socket_path>,id=<device_id>,\
        pci_segment=<segment_id>,pci_device_id=<pci_slot>\"";

    pub fn parse(user_device: &str) -> (r: Result<Self, Error>)
        ensures
            rview(r) == user_device_spec(user_device@),
    {
        let mut parser = OptionParser::new();
        parser.add("socket");
        add_pci_options(&mut parser, false);
        if let Err(e) = parser.parse(user_device) {
            return Err(Error::ParseUserDevice(e));
        }
        let pci_common = PciDeviceCommonConfig::parse(user_device)?;
        let socket = match parser.get("socket") {
            Some(s) => s,
            None => return Err(Error::ParseUserDeviceSocketMissing),
        };
        Ok(UserDeviceConfig { pci_common, socket })
    }
}

/// A vDPA device.
#[derive(Debug, PartialEq, Eq)]
pub struct VdpaConfig {
    pub pci_common: PciDeviceCommonConfig,
    pub path: String,
    pub num_queues: usize,
}

pub struct VdpaConfigSpec {
    pub pci_common: PciDeviceCommonConfigSpec,
    pub path: Seq<char>,
    pub num_queues: usize,
}

impl View for VdpaConfig {
    type V = VdpaConfigSpec;

    open spec fn view(&self) -> VdpaConfigSpec {
        VdpaConfigSpec { pci_common: self.pci_common@, path: self.path@, num_queues: self.num_queues }
    }
}

/// The vDPA device that `s` describes; `path` is required, one queue by
/// default.
pub open spec fn vdpa_spec(s: Seq<char>) -> Result<VdpaConfigSpec, ErrorSpec> {
    match parse_spec(pci_options(add_opt(add_opt(Seq::empty(), "path"@, true), "num_queues"@, true), true), s, false) {
        Err(er) => Err(ErrorSpec::ParseVdpa(er)),
        Ok(e) => match pci_common_spec(s) {
            Err(x) => Err(x),
            Ok(pc) => match opt_get(e, "path"@) {
                None => Err(ErrorSpec::ParseVdpaPathMissing),
                Some(path) => match conv_usize(e, "num_queues"@) {
                    Err(er) => Err(ErrorSpec::ParseVdpa(er)),
                    Ok(n) => Ok(VdpaConfigSpec { pci_common: pc, path, num_queues: or_default(n, 1) }),
                },
            },
        },
    }
}

impl VdpaConfig {
    pub const SYNTAX: &'static str = "vDPA device \
        \"path=<device_path>,num_queues=<number_of_queues>,iommu=on|off,\
        id=<device_id>,pci_segment=<segment_id>,pci_device_id=<pci_slot>\"";

    pub fn parse(vdpa: &str) -> (r: Result<Self, Error>)
        ensures
            rview(r) == vdpa_spec(vdpa@),
    {
        let mut parser = OptionParser::new();
        parser.add("path");
        parser.add("num_queues");
        add_pci_options(&mut parser, true);
        if let Err(e) = parser.parse(vdpa) {
            return Err(Error::ParseVdpa(e));
        }
        let pci_common = PciDeviceCommonConfig::parse(vdpa)?;
        let path = match parser.get("path") {
            Some(p) => p,
            None => return Err(Error::ParseVdpaPathMissing),
        };
        let num_queues = match parser.convert_usize("num_queues") {
            Ok(Some(n)) => n,
            Ok(None) => default_vdpaconfig_num_queues(),
            Err(e) => return Err(Error::ParseVdpa(e)),
        };
        Ok(VdpaConfig { pci_common, path, num_queues })
    }
}

/// A vDPA device has one queue by default.
pub fn default_vdpaconfig_num_queues() -> (r: usize)
    ensures
        r == 1,
{
    1
}

/// A virtio vsock device.
#[derive(Debug, PartialEq, Eq)]
pub struct VsockConfig {
    pub pci_common: PciDeviceCommonConfig,
    pub cid: u32,
    pub socket: String,
}

pub struct VsockConfigSpec {
    pub pci_common: PciDeviceCommonConfigSpec,
    pub cid: u32,
    pub socket: Seq<char>,
}

impl View for VsockConfig {
    type V = VsockConfigSpec;

    open spec fn view(&self) -> VsockConfigSpec {
        VsockConfigSpec { pci_common: self.pci_common@, cid: self.cid, socket: self.socket@ }
    }
}

/// The vsock device that `s` describes; `socket` and `cid` are required.
pub open spec fn vsock_spec(s: Seq<char>) -> Result<VsockConfigSpec, ErrorSpec> {
    match parse_spec(pci_options(add_opt(add_opt(Seq::empty(), "socket"@, true), "cid"@, true), true), s, false) {
        Err(er) => Err(ErrorSpec::ParseVsock(er)),
        Ok(e) => match pci_common_spec(s) {
            Err(x) => Err(x),
            Ok(pc) => match opt_get(e, "socket"@) {
                None => Err(ErrorSpec::ParseVsockSockMissing),
                Some(sock) => match conv_u32(e, "cid"@) {
                    Err(er) => Err(ErrorSpec::ParseVsock(er)),
                    Ok(None) => Err(ErrorSpec::ParseVsockCidMissing),
                    Ok(Some(cid)) => Ok(VsockConfigSpec { pci_common: pc, cid, socket: sock }),
                },
            },
        },
    }
}

impl VsockConfig {
    pub const SYNTAX: &'static str = "Virtio VSOCK parameters \
        \"cid=<context_id>,socket=<socket_path>,iommu=on|off,id=<device_id>,\
        pci_segment=<segment_id>,pci_device_id=<pci_slot>\"";

    pub fn parse(vsock: &str) -> (r: Result<Self, Error>)
        ensures
            rview(r) == vsock_spec(vsock@),
    {
        let mut parser = OptionParser::new();
        parser.add("socket");
        parser.add("cid");
        add_pci_options(&mut parser, true);
        if let Err(e) = parser.parse(vsock) {
            return Err(Error::ParseVsock(e));
        }
        let pci_common = PciDeviceCommonConfig::parse(vsock)?;
        let socket = match parser.get("socket") {
            Some(s) => s,
            None => return Err(Error::ParseVsockSockMissing),
        };
        let cid = match parser.convert_u32("cid") {
            Ok(Some(c)) => c,
            Ok(None) => return Err(Error::ParseVsockCidMissing),
            Err(e) => return Err(Error::ParseVsock(e)),
        };
        Ok(VsockConfig { pci_common, cid, socket })
    }
}

/// The persistent-memory control device; it has no settings.
#[derive(Debug, PartialEq, Eq, Default)]
pub struct PvmemcontrolConfig {}

/// A virtio RTC device.
#[derive(Debug, Default, PartialEq, Eq)]
pub struct RtcConfig {
    pub pci_common: PciDeviceCommonConfig,
}

pub struct RtcConfigSpec {
    pub pci_common: PciDeviceCommonConfigSpec,
}

impl View for RtcConfig {
    type V = RtcConfigSpec;

    open spec fn view(&self) -> RtcConfigSpec {
        RtcConfigSpec { pci_common: self.pci_common@ }
    }
}

/// The RTC device that `s` describes: PCI settings only.
pub open spec fn rtc_spec(s: Seq<char>) -> Result<RtcConfigSpec, ErrorSpec> {
    match parse_spec(pci_options(Seq::empty(), true), s, false) {
        Err(er) => Err(ErrorSpec::ParseRtc(er)),
        Ok(_) => match pci_common_spec(s) {
            Err(x) => Err(x),
            Ok(pc) => Ok(RtcConfigSpec { pci_common: pc }),
        },
    }
}

impl RtcConfig {
    pub const SYNTAX: &'static str = "Virtio RTC parameters \"\
        iommu=on|off,id=<device_id>,\
        pci_segment=<segment_id>,pci_device_id=<pci_slot>\". \
        Passing --rtc with no arguments enables the device with default \
        settings.";

    pub fn parse(rtc: &str) -> (r: Result<Self, Error>)
        ensures
            rview(r) == rtc_spec(rtc@),
    {
        let mut parser = OptionParser::new();
        add_pci_options(&mut parser, true);
        if let Err(e) = parser.parse(rtc) {
            return Err(Error::ParseRtc(e));
        }
        let pci_common = PciDeviceCommonConfig::parse(rtc)?;
        Ok(RtcConfig { pci_common })
    }
}

/// A PCI segment and the weights of its MMIO apertures.
#[derive(Clone, Copy, Debug, PartialEq, Eq)]
pub struct PciSegmentConfig {
    pub pci_segment: u16,
    pub mmio32_aperture_weight: u32,
    pub mmio64_aperture_weight: u32,
}

pub open spec fn pci_segment_options() -> Seq<EntryV> {
    add_opt(
        add_opt(add_opt(Seq::empty(), "mmio32_aperture_weight"@, true), "mmio64_aperture_weight"@, true),
        "pci_segment"@,
        true,
    )
}

/// The segment that `s` describes: segment 0 and weight 1 by default.
pub open spec fn pci_segment_spec(s: Seq<char>) -> Result<PciSegmentConfig, ErrorSpec> {
    match parse_spec(pci_segment_options(), s, false) {
        Err(er) => Err(ErrorSpec::ParsePciSegment(er)),
        Ok(e) => match conv_u16(e, "pci_segment"@) {
            Err(er) => Err(ErrorSpec::ParsePciSegment(er)),
            Ok(seg) => match conv_u32(e, "mmio32_aperture_weight"@) {
                Err(er) => Err(ErrorSpec::ParsePciSegment(er)),
                Ok(w32) => match conv_u32(e, "mmio64_aperture_weight"@) {
                    Err(er) => Err(ErrorSpec::ParsePciSegment(er)),
                    Ok(w64) => Ok(
                        PciSegmentConfig {
                            pci_segment: or_default(seg, 0),
                            mmio32_aperture_weight: or_default(w32, DEFAULT_PCI_SEGMENT_APERTURE_WEIGHT),
                            mmio64_aperture_weight: or_default(w64, DEFAULT_PCI_SEGMENT_APERTURE_WEIGHT),
                        },
                    ),
                },
            },
        },
    }
}

pub open spec fn segment_result(r: Result<PciSegmentConfig, Error>) -> Result<PciSegmentConfig, ErrorSpec> {
    match r {
        Ok(c) => Ok(c),
        Err(e) => Err(e@),
    }
}

impl PciSegmentConfig {
    pub const SYNTAX: &'static str = "PCI Segment parameters \
         \"pci_segment=<segment_id>,mmio32_aperture_weight=<scale>,mmio64_aperture_weight=<scale>\"";

    pub fn parse(disk: &str) -> (r: Result<Self, Error>)
        ensures
            segment_result(r) == pci_segment_spec(disk@),
    {
        let mut parser = OptionParser::new();
        parser.add("mmio32_aperture_weight");
        parser.add("mmio64_aperture_weight");
        parser.add("pci_segment");
        if let Err(e) = parser.parse(disk) {
            return Err(Error::ParsePciSegment(e));
        }
        let pci_segment = match parser.convert_u16("pci_segment") {
            Ok(Some(v)) => v,
            Ok(None) => 0,
            Err(e) => return Err(Error::ParsePciSegment(e)),
        };
        let mmio32_aperture_weight = match parser.convert_u32("mmio32_aperture_weight") {
            Ok(Some(v)) => v,
            Ok(None) => DEFAULT_PCI_SEGMENT_APERTURE_WEIGHT,
            Err(e) => return Err(Error::ParsePciSegment(e)),
        };
        let mmio64_aperture_weight = match parser.convert_u32("mmio64_aperture_weight") {
            Ok(Some(v)) => v,
            Ok(None) => DEFAULT_PCI_SEGMENT_APERTURE_WEIGHT,
            Err(e) => return Err(Error::ParsePciSegment(e)),
        };
        Ok(PciSegmentConfig { pci_segment, mmio32_aperture_weight, mmio64_aperture_weight })
    }
}

/// The aperture weight of a PCI segment that names none.
pub fn default_pci_segment_aperture_weight() -> (r: u32)
    ensures
        r == DEFAULT_PCI_SEGMENT_APERTURE_WEIGHT,
{
    DEFAULT_PCI_SEGMENT_APERTURE_WEIGHT
}

/// A TPM device behind a socket (such as swtpm's).
#[derive(Debug, PartialEq, Eq)]
pub struct TpmConfig {
    pub socket: String,
}

impl View for TpmConfig {
    type V = Seq<char>;

    open spec fn view(&self) -> Seq<char> {
        self.socket@
    }
}

/// The TPM that `s` describes: its socket, which is required.
pub open spec fn tpm_spec(s: Seq<char>) -> Result<Seq<char>, ErrorSpec> {
    match parse_spec(add_opt(Seq::empty(), "socket"@, true), s, false) {
        Err(er) => Err(ErrorSpec::ParseTpm(er)),
        Ok(e) => match opt_get(e, "socket"@) {
            None => Err(ErrorSpec::ParseTpmPathMissing),
            Some(sock) => Ok(sock),
        },
    }
}

impl TpmConfig {
    pub const SYNTAX: &'static str = "TPM device \
        \"(UNIX Domain Socket from swtpm) socket=</path/to/a/socket>\"";

    pub fn parse(tpm: &str) -> (r: Result<Self, Error>)
        ensures
            rview(r) == tpm_spec(tpm@),
    {
        let mut parser = OptionParser::new();
        parser.add("socket");
        if let Err(e) = parser.parse(tpm) {
            return Err(Error::ParseTpm(e));
        }
        match parser.get("socket") {
            Some(socket) => Ok(TpmConfig { socket }),
            None => Err(Error::ParseTpmPathMissing),
        }
    }
}

/// A Landlock rule: a path and the access (`r`, `w`, `rw`) granted to it.
#[derive(Debug, PartialEq, Eq)]
pub struct LandlockConfig {
    pub path: String,
    pub access: String,
}

pub struct LandlockConfigSpec {
    pub path: Seq<char>,
    pub access: Seq<char>,
}

impl View for LandlockConfig {
    type V = LandlockConfigSpec;

    open spec fn view(&self) -> LandlockConfigSpec {
        LandlockConfigSpec { path: self.path@, access: self.access@ }
    }
}

/// The rule that `s` describes; `path` and `access` are required and the
/// access has at most two characters.
pub open spec fn landlock_spec(s: Seq<char>) -> Result<LandlockConfigSpec, ErrorSpec> {
    match parse_spec(add_opt(add_opt(Seq::empty(), "path"@, true), "access"@, true), s, false) {
        Err(er) => Err(ErrorSpec::ParseLandlockRules(er)),
        Ok(e) => match (opt_get(e, "path"@), opt_get(e, "access"@)) {
            (Some(path), Some(access)) => if access.len() > 2 {
                Err(ErrorSpec::ParseLandlockRules(OptErr::InvalidValue(access)))
            } else {
                Ok(LandlockConfigSpec { path, access })
            },
            _ => Err(ErrorSpec::ParseLandlockMissingFields),
        },
    }
}

impl LandlockConfig {
    pub const SYNTAX: &'static str = "Landlock parameters \
        \"path=<path/to/{file/dir}>,access=[rw]\"";

    pub fn parse(landlock_rule: &str) -> (r: Result<Self, Error>)
        ensures
            rview(r) == landlock_spec(landlock_rule@),
    {
        let mut parser = OptionParser::new();
        parser.add("path");
        parser.add("access");
        if let Err(e) = parser.parse(landlock_rule) {
            return Err(Error::ParseLandlockRules(e));
        }
        let path = match parser.get("path") {
            Some(p) => p,
            None => return Err(Error::ParseLandlockMissingFields),
        };
        let access = match parser.get("access") {
            Some(a) => a,
            None => return Err(Error::ParseLandlockMissingFields),
        };
        if access.as_str().unicode_len() > 2 {
            return Err(Error::ParseLandlockRules(OptionParserError::InvalidValue(access)));
        }
        Ok(LandlockConfig { path, access })
    }
}

/// An ivshmem shared-memory device.
#[derive(Debug, PartialEq, Eq)]
pub struct IvshmemConfig {
    pub pci_common: PciDeviceCommonConfig,
    pub path: String,
    pub size: usize,
}

pub struct IvshmemConfigSpec {
    pub pci_common: PciDeviceCommonConfigSpec,
    pub path: Seq<char>,
    pub size: usize,
}

impl View for IvshmemConfig {
    type V = IvshmemConfigSpec;

    open spec fn view(&self) -> IvshmemConfigSpec {
        IvshmemConfigSpec { pci_common: self.pci_common@, path: self.path@, size: self.size }
    }
}

/// `n` is a power of two: 1, 2, 4, ...
pub open spec fn is_power_of_two(n: nat) -> bool
    decreases n,
{
    if n == 1 {
        true
    } else if n == 0 || n % 2 == 1 {
        false
    } else {
        is_power_of_two(n / 2)
    }
}

/// Whether `n` is a power of two.
pub fn power_of_two(n: u64) -> (r: bool)
    ensures
        r == is_power_of_two(n as nat),
{
    let mut m = n;
    while m > 1 && m % 2 == 0
        invariant
            is_power_of_two(m as nat) == is_power_of_two(n as nat),
        decreases m,
    {
        m = m / 2;
    }
    m == 1
}

/// The ivshmem device that `s` describes; `path` is required and `size`
/// defaults to 128 MiB; a size given must be a power of two.
pub open spec fn ivshmem_spec(s: Seq<char>) -> Result<IvshmemConfigSpec, ErrorSpec> {
    match parse_spec(pci_options(add_opt(add_opt(Seq::empty(), "path"@, true), "size"@, true), false), s, false) {
        Err(er) => Err(ErrorSpec::ParseIvshmem(er)),
        Ok(e) => match opt_get(e, "path"@) {
            None => Err(ErrorSpec::ParseIvshmemPathMissing),
            Some(path) => match conv_bytes(e, "size"@) {
                Err(er) => Err(ErrorSpec::ParseIvshmem(er)),
                Ok(Some(n)) if !is_power_of_two(n as nat) => Err(ErrorSpec::ParseIvshmemSizeNotPowerOfTwo(n)),
                Ok(size) => match pci_common_spec(s) {
                    Err(x) => Err(x),
                    Ok(pc) => Ok(
                        IvshmemConfigSpec {
                            pci_common: pc,
                            path,
                            size: or_default(size, 0x800_0000) as usize,
                        },
                    ),
                },
            },
        },
    }
}

impl IvshmemConfig {
    pub const SYNTAX: &'static str = "Ivshmem device. Specify the backend file path and size \
    for the shared memory: \"path=</path/to/a/file>,size=<file_size>,id=<device_id>,\
    pci_segment=<segment_id>,pci_device_id=<pci_slot>\" \
    \nThe <file_size> must be a power of 2 (e.g., 2M, 4M, etc.), as it represents the size \
    of the memory region mapped to the guest. Default size is 128M.";

    pub fn parse(ivshmem: &str) -> (r: Result<Self, Error>)
        ensures
            rview(r) == ivshmem_spec(ivshmem@),
    {
        let mut parser = OptionParser::new();
        parser.add("path");
        parser.add("size");
        add_pci_options(&mut parser, false);
        if let Err(e) = parser.parse(ivshmem) {
            return Err(Error::ParseIvshmem(e));
        }
        let path = match parser.get("path") {
            Some(p) => p,
            None => return Err(Error::ParseIvshmemPathMissing),
        };
        let size: u64 = match parser.convert_bytes("size") {
            Ok(Some(v)) => {
                if !power_of_two(v) {
                    return Err(Error::ParseIvshmemSizeNotPowerOfTwo(v));
                }
                v
            },
            Ok(None) => (DEFAULT_IVSHMEM_SIZE as u64) << 20u64,
            Err(e) => return Err(Error::ParseIvshmem(e)),
        };
        assert(((DEFAULT_IVSHMEM_SIZE as u64) << 20u64) == 0x800_0000) by (bit_vector);
        let pci_common = PciDeviceCommonConfig::parse(ivshmem)?;
        Ok(IvshmemConfig { pci_common, path, size: size as usize })
    }
}

impl Default for IvshmemConfig {
    fn default() -> (r: Self)
        ensures
            r@.path == Seq::<char>::empty(),
            r@.size == 0x800_0000,
            r@.pci_common == (PciDeviceCommonConfigSpec {
                id: None,
                iommu: false,
                pci_segment: 0,
                pci_device_id: None,
            }),
    {
        IvshmemConfig {
            pci_common: PciDeviceCommonConfig { id: None, iommu: false, pci_segment: 0, pci_device_id: None },
            path: String::new(),
            size: 0x800_0000,
        }
    }
}

/// A parsed assigned device has the path, descriptor and clique given, the
/// BARs given (none when none are) and the PCI settings of the string.
pub proof fn lemma_device_fields(s: Seq<char>)
    ensures
        device_spec(s) is Ok ==> {
            let e = parse_spec(device_options(), s, false)->Ok_0;
            let d = device_spec(s)->Ok_0;
            &&& d.path == opt_get(e, "path"@)
            &&& d.fd == given_i32(e, "fd"@)
            &&& d.x_nv_gpudirect_clique == given_u8(e, "x_nv_gpudirect_clique"@)
            &&& d.x_exclude_mmap_bars == match raw(e, "x_exclude_mmap_bars"@) {
                Some(v) => intlist_value(v)->Some_0,
                None => Seq::empty(),
            }
            &&& d.pci_common == pci_common_spec(s)->Ok_0
        },
{
}

/// A vDPA string is accepted exactly when its options parse, its PCI
/// settings are valid, it names a `path`, and a given `num_queues` is a
/// number; the device then has that path, the queue count given (one when
/// none is) and the PCI settings of the string.
pub proof fn lemma_vdpa_fields(s: Seq<char>)
    ensures
        vdpa_spec(s) is Ok <==> {
            let p = parse_spec(pci_options(add_opt(add_opt(Seq::empty(), "path"@, true), "num_queues"@, true), true), s, false);
            &&& p is Ok
            &&& pci_common_spec(s) is Ok
            &&& opt_get(p->Ok_0, "path"@) is Some
            &&& (raw(p->Ok_0, "num_queues"@) matches Some(v) ==> usize_value(v) is Some)
        },
        vdpa_spec(s) is Ok ==> {
            let e = parse_spec(pci_options(add_opt(add_opt(Seq::empty(), "path"@, true), "num_queues"@, true), true), s, false)->Ok_0;
            let d = vdpa_spec(s)->Ok_0;
            &&& Some(d.path) == opt_get(e, "path"@)
            &&& d.num_queues == match raw(e, "num_queues"@) {
                Some(v) => usize_value(v)->Some_0,
                None => 1,
            }
            &&& d.pci_common == pci_common_spec(s)->Ok_0
        },
{
}

/// A vsock string is accepted exactly when its options parse, its PCI
/// settings are valid, and it names a `socket` and a `cid` that is a 32-bit
/// number; the device then has that socket and cid.
pub proof fn lemma_vsock_fields(s: Seq<char>)
    ensures
        vsock_spec(s) is Ok <==> {
            let p = parse_spec(pci_options(add_opt(add_opt(Seq::empty(), "socket"@, true), "cid"@, true), true), s, false);
            &&& p is Ok
            &&& pci_common_spec(s) is Ok
            &&& opt_get(p->Ok_0, "socket"@) is Some
            &&& given_u32(p->Ok_0, "cid"@) is Some
        },
        vsock_spec(s) is Ok ==> {
            let e = parse_spec(pci_options(add_opt(add_opt(Seq::empty(), "socket"@, true), "cid"@, true), true), s, false)->Ok_0;
            let d = vsock_spec(s)->Ok_0;
            &&& Some(d.socket) == opt_get(e, "socket"@)
            &&& Some(d.cid) == given_u32(e, "cid"@)
            &&& d.pci_common == pci_common_spec(s)->Ok_0
        },
{
}

/// A parsed PCI segment has the segment given (0 when none is) and the
/// aperture weights given (1 when none is).
pub proof fn lemma_pci_segment_fields(s: Seq<char>)
    ensures
        pci_segment_spec(s) is Ok ==> {
            let e = parse_spec(pci_segment_options(), s, false)->Ok_0;
            let c = pci_segment_spec(s)->Ok_0;
            &&& c.pci_segment == match raw(e, "pci_segment"@) {
                Some(v) => u16_value(v)->Some_0,
                None => 0,
            }
            &&& c.mmio32_aperture_weight == match raw(e, "mmio32_aperture_weight"@) {
                Some(v) => u32_value(v)->Some_0,
                None => 1,
            }
            &&& c.mmio64_aperture_weight == match raw(e, "mmio64_aperture_weight"@) {
                Some(v) => u32_value(v)->Some_0,
                None => 1,
            }
        },
{
}

/// A TPM string is accepted exactly when its options parse and it names a
/// `socket`, and the TPM is reached over that socket.
pub proof fn lemma_tpm_fields(s: Seq<char>)
    ensures
        tpm_spec(s) is Ok <==> (parse_spec(add_opt(Seq::empty(), "socket"@, true), s, false) matches Ok(e) && opt_get(
            e,
            "socket"@,
        ) is Some),
        tpm_spec(s) is Ok ==> Some(tpm_spec(s)->Ok_0) == opt_get(
            parse_spec(add_opt(Seq::empty(), "socket"@, true), s, false)->Ok_0,
            "socket"@,
        ),
{
}

/// A user's Landlock rule is accepted exactly when its options parse and it
/// names a `path` and an `access` of at most two characters; the rule then
/// grants that access to that path.
pub proof fn lemma_landlock_rule_fields(s: Seq<char>)
    ensures
        landlock_spec(s) is Ok <==> {
            let p = parse_spec(add_opt(add_opt(Seq::empty(), "path"@, true), "access"@, true), s, false);
            &&& p is Ok
            &&& opt_get(p->Ok_0, "path"@) is Some
            &&& opt_get(p->Ok_0, "access"@) is Some
            &&& opt_get(p->Ok_0, "access"@)->Some_0.len() <= 2
        },
        landlock_spec(s) is Ok ==> {
            let e = parse_spec(add_opt(add_opt(Seq::empty(), "path"@, true), "access"@, true), s, false)->Ok_0;
            &&& Some(landlock_spec(s)->Ok_0.path) == opt_get(e, "path"@)
            &&& Some(landlock_spec(s)->Ok_0.access) == opt_get(e, "access"@)
        },
{
}

/// A parsed ivshmem device has the path given and the size given, which is
/// a power of two, or else 128 MiB, also a power of two; and the PCI settings of
/// the string.
pub proof fn lemma_ivshmem_fields(s: Seq<char>)
    ensures
        ivshmem_spec(s) is Ok ==> {
            let e = parse_spec(pci_options(add_opt(add_opt(Seq::empty(), "path"@, true), "size"@, true), false), s, false)->Ok_0;
            let d = ivshmem_spec(s)->Ok_0;
            &&& Some(d.path) == opt_get(e, "path"@)
            &&& d.size == match raw(e, "size"@) {
                Some(v) => bytes_value(v)->Some_0 as usize,
                None => 0x800_0000usize,
            }
            &&& match raw(e, "size"@) {
                Some(v) => is_power_of_two(bytes_value(v)->Some_0 as nat),
                None => is_power_of_two(d.size as nat),
            }
            &&& d.pci_common == pci_common_spec(s)->Ok_0
        },
{
    if ivshmem_spec(s) is Ok {
        let e = parse_spec(pci_options(add_opt(add_opt(Seq::empty(), "path"@, true), "size"@, true), false), s, false)->Ok_0;
        if raw(e, "size"@) is None {
            assert(is_power_of_two(0x800_0000nat)) by {
                reveal_with_fuel(is_power_of_two, 28);
            }
        }
    }
}

} // verus!
