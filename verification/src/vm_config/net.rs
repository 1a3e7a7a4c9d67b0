//! Network devices.
use vstd::prelude::*;

use crate::api::vm_migration::string_opt_view;
use crate::error::{Error, ErrorSpec, or_default, rview};
use crate::option_parser::{add_opt, opt_get, parse_spec, raw, raw_or_empty, EntryV, OptErr, OptionParser, OptionParserError};
use crate::text::{chars_of, eq_ignore_case, eq_ignore_case_str, string_from};
use crate::values::{
    conv_intlist, conv_toggle, conv_u16, conv_u64, conv_usize, conversion_error, given_off, given_on, given_u16,
    intlist_value, lift, u16_value, usize_value,
};
use crate::vm_config::net_addr::{ip_value, mac_value, IpAddr, IpAddrSpec, MacAddr};
use crate::vm_config::{
    pci_common_spec, pci_options, add_pci_options, PciDeviceCommonConfig, PciDeviceCommonConfigSpec,
    DEFAULT_NET_NUM_QUEUES, DEFAULT_NET_QUEUE_SIZE,
};

verus! {

/// Whether the VMM is the client or the server of a vhost-user socket.
#[derive(Clone, Copy, Debug, Default, PartialEq, Eq, Structural)]
pub enum VhostMode {
    #[default]
    Client,
    Server,
}

#[derive(Debug, PartialEq, Eq)]
pub enum ParseVhostModeError {
    InvalidValue(String),
}

/// `client` or `server`, in any ASCII case.
pub open spec fn vhost_mode_value(s: Seq<char>) -> Option<VhostMode> {
    if eq_ignore_case(s, "client"@) {
        Some(VhostMode::Client)
    } else if eq_ignore_case(s, "server"@) {
        Some(VhostMode::Server)
    } else {
        None
    }
}

fn vhost_mode_of(v: &Vec<char>) -> (r: Option<VhostMode>)
    ensures
        r == vhost_mode_value(v@),
{
    if eq_ignore_case_str(v, "client") {
        Some(VhostMode::Client)
    } else if eq_ignore_case_str(v, "server") {
        Some(VhostMode::Server)
    } else {
        None
    }
}

impl VhostMode {
    pub fn from_str(s: &str) -> (r: Result<Self, ParseVhostModeError>)
        ensures
            match vhost_mode_value(s@) {
                Some(m) => r == Ok::<VhostMode, ParseVhostModeError>(m),
                None => r matches Err(ParseVhostModeError::InvalidValue(x)) && x@ == s@,
            },
    {
        let v = chars_of(s);
        match vhost_mode_of(&v) {
            Some(m) => Ok(m),
            None => Err(ParseVhostModeError::InvalidValue(string_from(s))),
        }
    }
}

/// A token bucket: `size` tokens, refilled every `refill_time` ms, and an
/// initial burst.
#[derive(Clone, Copy, Debug, PartialEq, Eq, Structural)]
pub struct TokenBucketConfig {
    pub size: u64,
    pub one_time_burst: Option<u64>,
    pub refill_time: u64,
}

/// Limits on bandwidth and on operations.
#[derive(Clone, Copy, Debug, PartialEq, Eq, Structural)]
pub struct RateLimiterConfig {
    pub bandwidth: Option<TokenBucketConfig>,
    pub ops: Option<TokenBucketConfig>,
}

/// A network device.
#[derive(Debug, PartialEq, Eq)]
pub struct NetConfig {
    pub pci_common: PciDeviceCommonConfig,
    pub tap: Option<String>,
    pub ip: Option<IpAddr>,
    pub mask: Option<IpAddr>,
    pub mac: MacAddr,
    pub host_mac: Option<MacAddr>,
    pub mtu: Option<u16>,
    pub num_queues: usize,
    pub queue_size: u16,
    pub vhost_user: bool,
    pub vhost_socket: Option<String>,
    pub vhost_mode: VhostMode,
    /// File descriptors of the device; ones that were deserialized are -1.
    pub fds: Option<Vec<i32>>,
    pub rate_limiter_config: Option<RateLimiterConfig>,
    pub offload_tso: bool,
    pub offload_ufo: bool,
    pub offload_csum: bool,
}

pub struct NetConfigSpec {
    pub pci_common: PciDeviceCommonConfigSpec,
    pub tap: Option<Seq<char>>,
    pub ip: Option<IpAddrSpec>,
    pub mask: Option<IpAddrSpec>,
    pub mac: Seq<u8>,
    pub host_mac: Option<Seq<u8>>,
    pub mtu: Option<u16>,
    pub num_queues: usize,
    pub queue_size: u16,
    pub vhost_user: bool,
    pub vhost_socket: Option<Seq<char>>,
    pub vhost_mode: VhostMode,
    pub fds: Option<Seq<i32>>,
    pub rate_limiter_config: Option<RateLimiterConfig>,
    pub offload_tso: bool,
    pub offload_ufo: bool,
    pub offload_csum: bool,
}

pub open spec fn ip_opt_view(o: Option<IpAddr>) -> Option<IpAddrSpec> {
    match o {
        Some(a) => Some(a@),
        None => None,
    }
}

pub open spec fn mac_opt_view(o: Option<MacAddr>) -> Option<Seq<u8>> {
    match o {
        Some(m) => Some(m.bytes@),
        None => None,
    }
}

impl View for NetConfig {
    type V = NetConfigSpec;

    open spec fn view(&self) -> NetConfigSpec {
        NetConfigSpec {
            pci_common: self.pci_common@,
            tap: string_opt_view(self.tap),
            ip: ip_opt_view(self.ip),
            mask: ip_opt_view(self.mask),
            mac: self.mac.bytes@,
            host_mac: mac_opt_view(self.host_mac),
            mtu: self.mtu,
            num_queues: self.num_queues,
            queue_size: self.queue_size,
            vhost_user: self.vhost_user,
            vhost_socket: string_opt_view(self.vhost_socket),
            vhost_mode: self.vhost_mode,
            fds: match self.fds {
                Some(f) => Some(f@),
                None => None,
            },
            rate_limiter_config: self.rate_limiter_config,
            offload_tso: self.offload_tso,
            offload_ufo: self.offload_ufo,
            offload_csum: self.offload_csum,
        }
    }
}

pub open spec fn net_options() -> Seq<EntryV> {
    let e = add_opt(add_opt(add_opt(Seq::empty(), "tap"@, true), "ip"@, true), "mask"@, true);
    let e = add_opt(add_opt(add_opt(e, "mac"@, true), "host_mac"@, true), "offload_tso"@, true);
    let e = add_opt(add_opt(add_opt(e, "offload_ufo"@, true), "offload_csum"@, true), "mtu"@, true);
    let e = add_opt(add_opt(add_opt(e, "queue_size"@, true), "num_queues"@, true), "vhost_user"@, true);
    let e = add_opt(add_opt(add_opt(e, "socket"@, true), "vhost_mode"@, true), "fd"@, true);
    let e = add_opt(add_opt(add_opt(e, "bw_size"@, true), "bw_one_time_burst"@, true), "bw_refill_time"@, true);
    let e = add_opt(add_opt(add_opt(e, "ops_size"@, true), "ops_one_time_burst"@, true), "ops_refill_time"@, true);
    pci_options(e, true)
}

/// The addresses of `e`: IP address, mask, MAC address (when given) and host MAC.
pub struct NetAddrs {
    pub ip: Option<IpAddrSpec>,
    pub mask: Option<IpAddrSpec>,
    pub mac: Option<Seq<u8>>,
    pub host_mac: Option<Seq<u8>>,
}

pub open spec fn net_addrs(e: Seq<EntryV>) -> Result<NetAddrs, OptErr> {
    match lift("ip"@, raw(e, "ip"@), ip_value(raw_or_empty(e, "ip"@))) {
        Err(x) => Err(x),
        Ok(ip) => match lift("mask"@, raw(e, "mask"@), ip_value(raw_or_empty(e, "mask"@))) {
            Err(x) => Err(x),
            Ok(mask) => match lift("mac"@, raw(e, "mac"@), mac_value(raw_or_empty(e, "mac"@))) {
                Err(x) => Err(x),
                Ok(mac) => match lift("host_mac"@, raw(e, "host_mac"@), mac_value(raw_or_empty(e, "host_mac"@))) {
                    Err(x) => Err(x),
                    Ok(host_mac) => Ok(NetAddrs { ip, mask, mac, host_mac }),
                },
            },
        },
    }
}

/// Offloads, queues and the vhost-user settings of `e`, and its descriptors.
pub struct NetQueues {
    pub offload_tso: bool,
    pub offload_ufo: bool,
    pub offload_csum: bool,
    pub mtu: Option<u16>,
    pub queue_size: u16,
    pub num_queues: usize,
    pub vhost_user: bool,
    pub vhost_mode: VhostMode,
    pub fds: Option<Seq<i32>>,
}

pub open spec fn as_i32s(s: Seq<u64>) -> Seq<i32> {
    Seq::new(s.len(), |i: int| s[i] as i32)
}

pub open spec fn net_queues(e: Seq<EntryV>) -> Result<NetQueues, OptErr> {
    match conv_toggle(e, "offload_tso"@) {
        Err(x) => Err(x),
        Ok(tso) => match conv_toggle(e, "offload_ufo"@) {
            Err(x) => Err(x),
            Ok(ufo) => match conv_toggle(e, "offload_csum"@) {
                Err(x) => Err(x),
                Ok(csum) => match conv_u16(e, "mtu"@) {
                    Err(x) => Err(x),
                    Ok(mtu) => match conv_u16(e, "queue_size"@) {
                        Err(x) => Err(x),
                        Ok(qs) => match conv_usize(e, "num_queues"@) {
                            Err(x) => Err(x),
                            Ok(nq) => match conv_toggle(e, "vhost_user"@) {
                                Err(x) => Err(x),
                                Ok(vu) => match lift("vhost_mode"@, raw(e, "vhost_mode"@), vhost_mode_value(raw_or_empty(e, "vhost_mode"@))) {
                                    Err(x) => Err(x),
                                    Ok(vm) => match conv_intlist(e, "fd"@) {
                                        Err(x) => Err(x),
                                        Ok(fds) => Ok(NetQueues {
                                            offload_tso: or_default(tso, true),
                                            offload_ufo: or_default(ufo, true),
                                            offload_csum: or_default(csum, true),
                                            mtu,
                                            queue_size: or_default(qs, DEFAULT_NET_QUEUE_SIZE),
                                            num_queues: or_default(nq, DEFAULT_NET_NUM_QUEUES),
                                            vhost_user: or_default(vu, false),
                                            vhost_mode: or_default(vm, VhostMode::Client),
                                            fds: match fds {
                                                Some(l) => Some(as_i32s(l)),
                                                None => None,
                                            },
                                        }),
                                    },
                                },
                            },
                        },
                    },
                },
            },
        },
    }
}

/// A token bucket of `size` tokens refilled every `refill` ms; none when
/// either is 0.
pub open spec fn bucket(size: u64, burst: u64, refill: u64) -> Option<TokenBucketConfig> {
    if size != 0 && refill != 0 {
        Some(TokenBucketConfig { size, one_time_burst: Some(burst), refill_time: refill })
    } else {
        None
    }
}

/// The rate limiter of `e`; none when neither bucket is set.
pub open spec fn net_limiter(e: Seq<EntryV>) -> Result<Option<RateLimiterConfig>, OptErr> {
    match conv_u64(e, "bw_size"@) {
        Err(x) => Err(x),
        Ok(bs) => match conv_u64(e, "bw_one_time_burst"@) {
            Err(x) => Err(x),
            Ok(bb) => match conv_u64(e, "bw_refill_time"@) {
                Err(x) => Err(x),
                Ok(br) => match conv_u64(e, "ops_size"@) {
                    Err(x) => Err(x),
                    Ok(os) => match conv_u64(e, "ops_one_time_burst"@) {
                        Err(x) => Err(x),
                        Ok(ob) => match conv_u64(e, "ops_refill_time"@) {
                            Err(x) => Err(x),
                            Ok(or) => {
                                let bw = bucket(or_default(bs, 0), or_default(bb, 0), or_default(br, 0));
                                let ops = bucket(or_default(os, 0), or_default(ob, 0), or_default(or, 0));
                                Ok(if bw is Some || ops is Some {
                                    Some(RateLimiterConfig { bandwidth: bw, ops })
                                } else {
                                    None
                                })
                            },
                        },
                    },
                },
            },
        },
    }
}

/// The device that `s` describes, where `default_mac` is the MAC address it
/// gets when none is given. Queue size and count default to 256 and 2, the
/// offloads to on, `vhost_user` to off and the vhost mode to client.
pub open spec fn net_spec(s: Seq<char>, default_mac: Seq<u8>) -> Result<NetConfigSpec, ErrorSpec> {
    match parse_spec(net_options(), s, false) {
        Err(x) => Err(ErrorSpec::ParseNetwork(x)),
        Ok(e) => match net_addrs(e) {
            Err(x) => Err(ErrorSpec::ParseNetwork(x)),
            Ok(a) => match net_queues(e) {
                Err(x) => Err(ErrorSpec::ParseNetwork(x)),
                Ok(q) => match net_limiter(e) {
                    Err(x) => Err(ErrorSpec::ParseNetwork(x)),
                    Ok(rl) => match pci_common_spec(s) {
                        Err(x) => Err(x),
                        Ok(pc) => Ok(NetConfigSpec {
                            pci_common: pc,
                            tap: opt_get(e, "tap"@),
                            ip: a.ip,
                            mask: a.mask,
                            mac: or_default(a.mac, default_mac),
                            host_mac: a.host_mac,
                            mtu: q.mtu,
                            num_queues: q.num_queues,
                            queue_size: q.queue_size,
                            vhost_user: q.vhost_user,
                            vhost_socket: opt_get(e, "socket"@),
                            vhost_mode: q.vhost_mode,
                            fds: q.fds,
                            rate_limiter_config: rl,
                            offload_tso: q.offload_tso,
                            offload_ufo: q.offload_ufo,
                            offload_csum: q.offload_csum,
                        }),
                    },
                },
            },
        },
    }
}

fn convert_ip(parser: &OptionParser, option: &str) -> (r: Result<Option<IpAddr>, OptionParserError>)
    ensures
        match lift(option@, raw(parser@, option@), ip_value(raw_or_empty(parser@, option@))) {
            Ok(a) => r matches Ok(x) && ip_opt_view(x) == a,
            Err(er) => r matches Err(y) && y@ == er,
        },
{
    match parser.raw(option) {
        None => Ok(None),
        Some(v) => {
            let s = crate::text::string_of(&v);
            match IpAddr::from_str(s.as_str()) {
                Some(a) => Ok(Some(a)),
                None => Err(conversion_error(option, &v)),
            }
        },
    }
}

fn convert_mac(parser: &OptionParser, option: &str) -> (r: Result<Option<MacAddr>, OptionParserError>)
    ensures
        match lift(option@, raw(parser@, option@), mac_value(raw_or_empty(parser@, option@))) {
            Ok(a) => r matches Ok(x) && mac_opt_view(x) == a,
            Err(er) => r matches Err(y) && y@ == er,
        },
{
    match parser.raw(option) {
        None => Ok(None),
        Some(v) => {
            let s = crate::text::string_of(&v);
            match MacAddr::parse_str(s.as_str()) {
                Ok(a) => Ok(Some(a)),
                Err(_) => Err(conversion_error(option, &v)),
            }
        },
    }
}

fn parse_addrs(parser: &OptionParser) -> (r: Result<(Option<IpAddr>, Option<IpAddr>, Option<MacAddr>, Option<MacAddr>), OptionParserError>)
    ensures
        match net_addrs(parser@) {
            Ok(a) => r matches Ok(x) && a == (NetAddrs {
                ip: ip_opt_view(x.0),
                mask: ip_opt_view(x.1),
                mac: mac_opt_view(x.2),
                host_mac: mac_opt_view(x.3),
            }),
            Err(er) => r matches Err(y) && y@ == er,
        },
{
    let ip = convert_ip(parser, "ip")?;
    let mask = convert_ip(parser, "mask")?;
    let mac = convert_mac(parser, "mac")?;
    let host_mac = convert_mac(parser, "host_mac")?;
    Ok((ip, mask, mac, host_mac))
}

fn toggle_or(parser: &OptionParser, option: &str, d: bool) -> (r: Result<bool, OptionParserError>)
    ensures
        match conv_toggle(parser@, option@) {
            Ok(b) => r == Ok::<bool, OptionParserError>(or_default(b, d)),
            Err(er) => r matches Err(y) && y@ == er,
        },
{
    match parser.convert_toggle(option) {
        Ok(Some(b)) => Ok(b),
        Ok(None) => Ok(d),
        Err(e) => Err(e),
    }
}

fn u64_or_zero(parser: &OptionParser, option: &str) -> (r: Result<u64, OptionParserError>)
    ensures
        match conv_u64(parser@, option@) {
            Ok(b) => r == Ok::<u64, OptionParserError>(or_default(b, 0)),
            Err(er) => r matches Err(y) && y@ == er,
        },
{
    match parser.convert_u64(option) {
        Ok(Some(b)) => Ok(b),
        Ok(None) => Ok(0),
        Err(e) => Err(e),
    }
}

fn fds_of(v: &Vec<u64>) -> (r: Vec<i32>)
    ensures
        r@ == as_i32s(v@),
{
    let mut r: Vec<i32> = Vec::new();
    let mut i: usize = 0;
    while i < v.len()
        invariant
            i <= v@.len(),
            r@ == as_i32s(v@.subrange(0, i as int)),
        decreases v@.len() - i,
    {
        r.push(v[i] as i32);
        assert(r@ =~= as_i32s(v@.subrange(0, i as int + 1)));
        i = i + 1;
    }
    assert(v@.subrange(0, v@.len() as int) =~= v@);
    r
}

fn parse_queues(parser: &OptionParser) -> (r: Result<(bool, bool, bool, Option<u16>, u16, usize, bool, VhostMode, Option<Vec<i32>>), OptionParserError>)
    ensures
        match net_queues(parser@) {
            Ok(q) => r matches Ok(x) && q == (NetQueues {
                offload_tso: x.0,
                offload_ufo: x.1,
                offload_csum: x.2,
                mtu: x.3,
                queue_size: x.4,
                num_queues: x.5,
                vhost_user: x.6,
                vhost_mode: x.7,
                fds: match x.8 {
                    Some(f) => Some(f@),
                    None => None,
                },
            }),
            Err(er) => r matches Err(y) && y@ == er,
        },
{
    let tso = toggle_or(parser, "offload_tso", true)?;
    let ufo = toggle_or(parser, "offload_ufo", true)?;
    let csum = toggle_or(parser, "offload_csum", true)?;
    let mtu = parser.convert_u16("mtu")?;
    let queue_size = match parser.convert_u16("queue_size")? {
        Some(q) => q,
        None => default_netconfig_queue_size(),
    };
    let num_queues = match parser.convert_usize("num_queues")? {
        Some(n) => n,
        None => default_netconfig_num_queues(),
    };
    let vhost_user = toggle_or(parser, "vhost_user", false)?;
    let vhost_mode = match parser.raw("vhost_mode") {
        None => VhostMode::Client,
        Some(v) => match vhost_mode_of(&v) {
            Some(m) => m,
            None => return Err(conversion_error("vhost_mode", &v)),
        },
    };
    let fds = match parser.convert_intlist("fd")? {
        Some(l) => Some(fds_of(&l)),
        None => None,
    };
    Ok((tso, ufo, csum, mtu, queue_size, num_queues, vhost_user, vhost_mode, fds))
}

fn bucket_of(size: u64, burst: u64, refill: u64) -> (r: Option<TokenBucketConfig>)
    ensures
        r == bucket(size, burst, refill),
{
    if size != 0 && refill != 0 {
        Some(TokenBucketConfig { size, one_time_burst: Some(burst), refill_time: refill })
    } else {
        None
    }
}

fn parse_limiter(parser: &OptionParser) -> (r: Result<Option<RateLimiterConfig>, OptionParserError>)
    ensures
        match net_limiter(parser@) {
            Ok(l) => r == Ok::<Option<RateLimiterConfig>, OptionParserError>(l),
            Err(er) => r matches Err(y) && y@ == er,
        },
{
    let bw_size = u64_or_zero(parser, "bw_size")?;
    let bw_one_time_burst = u64_or_zero(parser, "bw_one_time_burst")?;
    let bw_refill_time = u64_or_zero(parser, "bw_refill_time")?;
    let ops_size = u64_or_zero(parser, "ops_size")?;
    let ops_one_time_burst = u64_or_zero(parser, "ops_one_time_burst")?;
    let ops_refill_time = u64_or_zero(parser, "ops_refill_time")?;
    let bw = bucket_of(bw_size, bw_one_time_burst, bw_refill_time);
    let ops = bucket_of(ops_size, ops_one_time_burst, ops_refill_time);
    if bw.is_some() || ops.is_some() {
        Ok(Some(RateLimiterConfig { bandwidth: bw, ops }))
    } else {
        Ok(None)
    }
}

impl NetConfig {
    /// Parses a network device; `default_mac` is the MAC address it gets when
    /// none is given (the command line draws a random one).
    pub fn parse(net: &str, default_mac: MacAddr) -> (r: Result<Self, Error>)
        ensures
            rview(r) == net_spec(net@, default_mac.bytes@),
    {
        let mut parser = OptionParser::new();
        parser.add("tap");
        parser.add("ip");
        parser.add("mask");
        parser.add("mac");
        parser.add("host_mac");
        parser.add("offload_tso");
        parser.add("offload_ufo");
        parser.add("offload_csum");
        parser.add("mtu");
        parser.add("queue_size");
        parser.add("num_queues");
        parser.add("vhost_user");
        parser.add("socket");
        parser.add("vhost_mode");
        parser.add("fd");
        parser.add("bw_size");
        parser.add("bw_one_time_burst");
        parser.add("bw_refill_time");
        parser.add("ops_size");
        parser.add("ops_one_time_burst");
        parser.add("ops_refill_time");
        add_pci_options(&mut parser, true);
        if let Err(e) = parser.parse(net) {
            return Err(Error::ParseNetwork(e));
        }
        let tap = parser.get("tap");
        let (ip, mask, mac, host_mac) = match parse_addrs(&parser) {
            Ok(a) => a,
            Err(e) => return Err(Error::ParseNetwork(e)),
        };
        let mac = match mac {
            Some(m) => m,
            None => default_mac,
        };
        let (offload_tso, offload_ufo, offload_csum, mtu, queue_size, num_queues, vhost_user, vhost_mode, fds) =
            match parse_queues(&parser) {
            Ok(q) => q,
            Err(e) => return Err(Error::ParseNetwork(e)),
        };
        let vhost_socket = parser.get("socket");
        let rate_limiter_config = match parse_limiter(&parser) {
            Ok(l) => l,
            Err(e) => return Err(Error::ParseNetwork(e)),
        };
        let pci_common = PciDeviceCommonConfig::parse(net)?;
        Ok(NetConfig {
            pci_common,
            tap,
            ip,
            mask,
            mac,
            host_mac,
            mtu,
            num_queues,
            queue_size,
            vhost_user,
            vhost_socket,
            vhost_mode,
            fds,
            rate_limiter_config,
            offload_tso,
            offload_ufo,
            offload_csum,
        })
    }
}

/// No tap device unless one is given.
pub fn default_netconfig_tap() -> (r: Option<String>)
    ensures
        r is None,
{
    None
}

/// Two queues unless given otherwise.
pub fn default_netconfig_num_queues() -> (r: usize)
    ensures
        r == DEFAULT_NET_NUM_QUEUES,
{
    DEFAULT_NET_NUM_QUEUES
}

/// Queues of 256 entries unless given otherwise.
pub fn default_netconfig_queue_size() -> (r: u16)
    ensures
        r == DEFAULT_NET_QUEUE_SIZE,
{
    DEFAULT_NET_QUEUE_SIZE
}

/// Offloads are on unless given otherwise.
pub fn default_netconfig_true() -> (r: bool)
    ensures
        r,
{
    true
}

/// A parsed net device has the tap, socket, addresses and MTU given; the
/// MAC address given, or else `default_mac`; the queue size and count given,
/// or else 256 and 2; each offload unless it is given as off; vhost-user
/// exactly when it is given as on, in the mode given (client when none is);
/// the descriptors given; and the PCI settings of the string.
pub proof fn lemma_net_fields(s: Seq<char>, default_mac: Seq<u8>)
    ensures
        net_spec(s, default_mac) is Ok ==> {
            let e = parse_spec(net_options(), s, false)->Ok_0;
            let n = net_spec(s, default_mac)->Ok_0;
            &&& n.tap == opt_get(e, "tap"@)
            &&& n.vhost_socket == opt_get(e, "socket"@)
            &&& n.ip == match raw(e, "ip"@) {
                Some(v) => ip_value(v),
                None => None,
            }
            &&& n.mask == match raw(e, "mask"@) {
                Some(v) => ip_value(v),
                None => None,
            }
            &&& n.mac == match raw(e, "mac"@) {
                Some(v) => mac_value(v)->Some_0,
                None => default_mac,
            }
            &&& n.host_mac == match raw(e, "host_mac"@) {
                Some(v) => mac_value(v),
                None => None,
            }
            &&& n.mtu == given_u16(e, "mtu"@)
            &&& n.queue_size == match raw(e, "queue_size"@) {
                Some(v) => u16_value(v)->Some_0,
                None => DEFAULT_NET_QUEUE_SIZE,
            }
            &&& n.num_queues == match raw(e, "num_queues"@) {
                Some(v) => usize_value(v)->Some_0,
                None => DEFAULT_NET_NUM_QUEUES,
            }
            &&& n.offload_tso == !given_off(e, "offload_tso"@)
            &&& n.offload_ufo == !given_off(e, "offload_ufo"@)
            &&& n.offload_csum == !given_off(e, "offload_csum"@)
            &&& n.vhost_user == given_on(e, "vhost_user"@)
            &&& n.vhost_mode == match raw(e, "vhost_mode"@) {
                Some(v) => vhost_mode_value(v)->Some_0,
                None => VhostMode::Client,
            }
            &&& n.fds == match raw(e, "fd"@) {
                Some(v) => Some(as_i32s(intlist_value(v)->Some_0)),
                None => None,
            }
            &&& n.pci_common == pci_common_spec(s)->Ok_0
        },
{
}

} // verus!
