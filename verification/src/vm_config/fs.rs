//! virtio-fs shared file systems.
use vstd::prelude::*;
use vstd::utf8::encode_utf8;

use crate::error::{Error, ErrorSpec, or_default, rview};
use crate::option_parser::{add_opt, opt_get, parse_spec, raw, EntryV, OptionParser};
use crate::values::{conv_u16, conv_usize, u16_value, usize_value};
use crate::vm_config::{
    add_pci_options, pci_common_spec, pci_options, PciDeviceCommonConfig, PciDeviceCommonConfigSpec,
};

verus! {

/// The longest tag, in bytes, that a virtio-fs device takes.
pub const VIRTIO_FS_TAG_LEN: usize = 36;

/// A virtio-fs device backed by a vhost-user daemon.
#[derive(Debug, PartialEq, Eq)]
pub struct FsConfig {
    pub pci_common: PciDeviceCommonConfig,
    pub tag: String,
    pub socket: String,
    pub num_queues: usize,
    pub queue_size: u16,
}

pub struct FsConfigSpec {
    pub pci_common: PciDeviceCommonConfigSpec,
    pub tag: Seq<char>,
    pub socket: Seq<char>,
    pub num_queues: usize,
    pub queue_size: u16,
}

impl View for FsConfig {
    type V = FsConfigSpec;

    open spec fn view(&self) -> FsConfigSpec {
        FsConfigSpec {
            pci_common: self.pci_common@,
            tag: self.tag@,
            socket: self.socket@,
            num_queues: self.num_queues,
            queue_size: self.queue_size,
        }
    }
}

/// The length in bytes of the UTF-8 encoding of `s` (what `str::len` gives).
pub open spec fn utf8_len(s: Seq<char>) -> usize {
    encode_utf8(s).len() as usize
}

pub open spec fn fs_options() -> Seq<EntryV> {
    pci_options(
        add_opt(
            add_opt(add_opt(add_opt(Seq::empty(), "tag"@, true), "queue_size"@, true), "num_queues"@, true),
            "socket"@,
            true,
        ),
        false,
    )
}

/// The file system that `s` describes: `tag` (at most 36 bytes of UTF-8)
/// and `socket` are required; one queue of 1024 entries by default.
pub open spec fn fs_spec(s: Seq<char>) -> Result<FsConfigSpec, ErrorSpec> {
    match parse_spec(fs_options(), s, false) {
        Err(er) => Err(ErrorSpec::ParseFileSystem(er)),
        Ok(e) => match opt_get(e, "tag"@) {
            None => Err(ErrorSpec::ParseFsTagMissing),
            Some(tag) => if utf8_len(tag) > VIRTIO_FS_TAG_LEN {
                Err(ErrorSpec::ParseFsTagTooLong)
            } else {
                match opt_get(e, "socket"@) {
                    None => Err(ErrorSpec::ParseFsSockMissing),
                    Some(socket) => match conv_u16(e, "queue_size"@) {
                        Err(er) => Err(ErrorSpec::ParseFileSystem(er)),
                        Ok(qs) => match conv_usize(e, "num_queues"@) {
                            Err(er) => Err(ErrorSpec::ParseFileSystem(er)),
                            Ok(nq) => match pci_common_spec(s) {
                                Err(x) => Err(x),
                                Ok(pc) => Ok(
                                    FsConfigSpec {
                                        pci_common: pc,
                                        tag,
                                        socket,
                                        num_queues: or_default(nq, 1),
                                        queue_size: or_default(qs, 1024),
                                    },
                                ),
                            },
                        },
                    },
                }
            },
        },
    }
}

impl FsConfig {
    pub const SYNTAX: &'static str = "virtio-fs parameters \
    \"tag=<tag_name>,socket=<socket_path>,num_queues=<number_of_queues>,\
    queue_size=<size_of_each_queue>,id=<device_id>,\
    pci_segment=<segment_id>,pci_device_id=<pci_slot>\"";

    pub fn parse(fs: &str) -> (r: Result<Self, Error>)
        ensures
            rview(r) == fs_spec(fs@),
    {
        let mut parser = OptionParser::new();
        parser.add("tag");
        parser.add("queue_size");
        parser.add("num_queues");
        parser.add("socket");
        add_pci_options(&mut parser, false);
        if let Err(e) = parser.parse(fs) {
            return Err(Error::ParseFileSystem(e));
        }
        let tag = match parser.get("tag") {
            Some(t) => t,
            None => return Err(Error::ParseFsTagMissing),
        };
        let tag_len = tag.as_str().len();
        assert(tag_len == utf8_len(tag@));
        if tag_len > VIRTIO_FS_TAG_LEN {
            return Err(Error::ParseFsTagTooLong);
        }
        let socket = match parser.get("socket") {
            Some(s) => s,
            None => return Err(Error::ParseFsSockMissing),
        };
        let queue_size = match parser.convert_u16("queue_size") {
            Ok(Some(v)) => v,
            Ok(None) => default_fsconfig_queue_size(),
            Err(e) => return Err(Error::ParseFileSystem(e)),
        };
        let num_queues = match parser.convert_usize("num_queues") {
            Ok(Some(v)) => v,
            Ok(None) => default_fsconfig_num_queues(),
            Err(e) => return Err(Error::ParseFileSystem(e)),
        };
        let pci_common = PciDeviceCommonConfig::parse(fs)?;
        Ok(FsConfig { pci_common, tag, socket, num_queues, queue_size })
    }
}

/// A virtio-fs device has one queue by default.
pub fn default_fsconfig_num_queues() -> (r: usize)
    ensures
        r == 1,
{
    1
}

/// A virtio-fs queue has 1024 entries by default.
pub fn default_fsconfig_queue_size() -> (r: u16)
    ensures
        r == 1024,
{
    1024
}

/// A virtio-fs string is accepted exactly when its options parse, it names
/// a `tag` of at most 36 bytes and a `socket`, the queue settings given are
/// numbers and its PCI settings are valid; the device then has that tag and
/// socket, the queue count and size given (one queue of 1024 entries when
/// none is) and the PCI settings of the string.
pub proof fn lemma_fs_fields(s: Seq<char>)
    ensures
        fs_spec(s) is Ok <==> {
            let p = parse_spec(fs_options(), s, false);
            &&& p is Ok
            &&& opt_get(p->Ok_0, "tag"@) is Some
            &&& utf8_len(opt_get(p->Ok_0, "tag"@)->Some_0) <= 36
            &&& opt_get(p->Ok_0, "socket"@) is Some
            &&& (raw(p->Ok_0, "queue_size"@) matches Some(v) ==> u16_value(v) is Some)
            &&& (raw(p->Ok_0, "num_queues"@) matches Some(v) ==> usize_value(v) is Some)
            &&& pci_common_spec(s) is Ok
        },
        fs_spec(s) is Ok ==> {
            let e = parse_spec(fs_options(), s, false)->Ok_0;
            let f = fs_spec(s)->Ok_0;
            &&& Some(f.tag) == opt_get(e, "tag"@)
            &&& Some(f.socket) == opt_get(e, "socket"@)
            &&& f.num_queues == match raw(e, "num_queues"@) {
                Some(v) => usize_value(v)->Some_0,
                None => 1,
            }
            &&& f.queue_size == match raw(e, "queue_size"@) {
                Some(v) => u16_value(v)->Some_0,
                None => 1024,
            }
            &&& f.pci_common == pci_common_spec(s)->Ok_0
        },
{
}

} // verus!
