//! MAC and IP addresses of network devices, and their textual forms.
use vstd::prelude::*;

use crate::text::{
    all_digits, all_hex_digits, chars_of, dec_value, is_digit, concat_str, hex_digit_value, hex_uint_value, hex_value, is_hex_digit, join,
    lemma_split_join, parse_hex, parse_uint, slice_chars, split, split_chars, uint_value, unsigned_digits,
    views,
};

verus! {

// ---------------------------------------------------------------------------
// MAC addresses
// ---------------------------------------------------------------------------

/// A MAC address.
#[derive(Clone, Copy, Debug, PartialEq, Eq)]
pub struct MacAddr {
    pub bytes: [u8; 6],
}

/// A byte written as two hexadecimal digits (`from_str_radix` also takes a
/// `+` before a single digit).
pub open spec fn mac_byte(p: Seq<char>) -> Option<u8> {
    if p.len() == 2 {
        match hex_uint_value(p, 255) {
            Some(x) => Some(x as u8),
            None => None,
        }
    } else {
        None
    }
}

/// The six bytes of `aa:bb:cc:dd:ee:ff`.
pub open spec fn mac_value(s: Seq<char>) -> Option<Seq<u8>> {
    let p = split(s, ':');
    if p.len() == 6 && forall|i: int| 0 <= i < 6 ==> (#[trigger] mac_byte(p[i])) is Some {
        Some(Seq::new(6, |i: int| mac_byte(p[i])->0))
    } else {
        None
    }
}

proof fn lemma_hex_pair(p: Seq<char>)
    requires
        p.len() == 2,
        all_hex_digits(p),
    ensures
        mac_byte(p) == Some(hex_value(p) as u8),
        hex_value(p) <= 255,
{
    assert(is_hex_digit(p[0]) && is_hex_digit(p[1]));
    assert(hex_digit_value(p[0]) <= 15);
    assert(hex_digit_value(p[1]) <= 15);
    assert(p.drop_last().drop_last() =~= Seq::<char>::empty());
    assert(p.drop_last().last() == p[0]);
    assert(p.last() == p[1]);
    let q = p.drop_last();
    assert(q.len() == 1);
    assert(hex_value(q.drop_last()) == 0);
    assert(hex_value(q) == hex_value(q.drop_last()) * 16 + hex_digit_value(q.last()));
    assert(hex_value(q) == hex_digit_value(p[0]));
    assert(hex_value(p) == hex_digit_value(p[0]) * 16 + hex_digit_value(p[1]));
    assert(p[0] != '+');
    assert(unsigned_digits(p) == p);
}

/// A MAC address written as six groups of two hexadecimal digits joined by
/// `:` reads as the six bytes those groups denote, in order.
pub proof fn lemma_mac_groups(ps: Seq<Seq<char>>)
    requires
        ps.len() == 6,
        forall|i: int| 0 <= i < 6 ==> (#[trigger] ps[i]).len() == 2 && all_hex_digits(ps[i]),
    ensures
        mac_value(join(ps, ':')) == Some(Seq::new(6, |i: int| hex_value(ps[i]) as u8)),
{
    assert forall|i: int, j: int| 0 <= i < ps.len() && 0 <= j < ps[i].len() implies #[trigger] ps[i][j] != ':' by {
        assert(is_hex_digit(ps[i][j]));
    }
    lemma_split_join(ps, ':');
    assert forall|i: int| 0 <= i < 6 implies (#[trigger] mac_byte(ps[i])) == Some(hex_value(ps[i]) as u8) by {
        lemma_hex_pair(ps[i]);
    }
    assert(Seq::new(6, |i: int| mac_byte(ps[i])->0) =~= Seq::new(6, |i: int| hex_value(ps[i]) as u8));
}

impl MacAddr {
    /// A locally administered address made of random bytes: the first byte
    /// becomes `0x2e` (a locally administered, unicast OUI), the other five
    /// stay as drawn.
    pub fn local_random(random_bytes: [u8; 6]) -> (r: MacAddr)
        ensures
            r.bytes@ == random_bytes@.update(0, 0x2eu8),
    {
        let r = MacAddr {
            bytes: [0x2e, random_bytes[1], random_bytes[2], random_bytes[3], random_bytes[4], random_bytes[5]],
        };
        assert(r.bytes@ =~= random_bytes@.update(0, 0x2eu8));
        r
    }

    /// Parses `aa:bb:cc:dd:ee:ff`; the error is the message of the failure.
    pub fn parse_str(s: &str) -> (r: Result<MacAddr, String>)
        ensures
            match mac_value(s@) {
                Some(b) => r matches Ok(m) && m.bytes@ == b,
                None => r matches Err(e) && e@ == "parsing of "@ + s@ + " into a MAC address failed"@,
            },
    {
        let v = chars_of(s);
        match mac_bytes(&v) {
            Some(bytes) => Ok(MacAddr { bytes }),
            None => {
                let m = concat_str("parsing of ", s);
                Err(concat_str(m.as_str(), " into a MAC address failed"))
            },
        }
    }
}

fn mac_bytes(v: &Vec<char>) -> (r: Option<[u8; 6]>)
    ensures
        match mac_value(v@) {
            Some(b) => r matches Some(x) && x@ == b,
            None => r is None,
        },
{
    let parts = split_chars(v, ':');
    let ghost p = views(parts@);
    if parts.len() != 6 {
        return None;
    }
    let mut bytes: [u8; 6] = [0u8; 6];
    let mut i: usize = 0;
    while i < 6
        invariant
            p == views(parts@),
            p == split(v@, ':'),
            p.len() == 6,
            i <= 6,
            forall|j: int| 0 <= j < i ==> (#[trigger] mac_byte(p[j])) == Some(bytes@[j]),
        decreases 6 - i,
    {
        assert(p[i as int] == parts@[i as int]@);
        let b = if parts[i].len() == 2 {
            parse_hex(&parts[i], 255)
        } else {
            None
        };
        match b {
            Some(x) => {
                bytes[i] = x as u8;
            },
            None => {
                assert(mac_byte(p[i as int]) is None);
                return None;
            },
        }
        i = i + 1;
    }
    assert(bytes@ =~= Seq::new(6, |j: int| mac_byte(p[j])->0));
    Some(bytes)
}

// ---------------------------------------------------------------------------
// IP addresses
// ---------------------------------------------------------------------------

/// An IPv4 or IPv6 address.
#[derive(Clone, Copy, Debug, PartialEq, Eq)]
pub enum IpAddr {
    V4([u8; 4]),
    V6([u16; 8]),
}

pub enum IpAddrSpec {
    V4(Seq<u8>),
    V6(Seq<u16>),
}

impl View for IpAddr {
    type V = IpAddrSpec;

    open spec fn view(&self) -> IpAddrSpec {
        match self {
            IpAddr::V4(b) => IpAddrSpec::V4(b@),
            IpAddr::V6(g) => IpAddrSpec::V6(g@),
        }
    }
}

/// A decimal octet: one to three digits, no leading zero, at most 255.
pub open spec fn octet_value(p: Seq<char>) -> Option<u8> {
    if 1 <= p.len() <= 3 && p[0] != '+' && !(p.len() > 1 && p[0] == '0') {
        match uint_value(p, 255) {
            Some(x) => Some(x as u8),
            None => None,
        }
    } else {
        None
    }
}

/// The four octets of `a.b.c.d`.
pub open spec fn ipv4_value(s: Seq<char>) -> Option<Seq<u8>> {
    let p = split(s, '.');
    if p.len() == 4 && forall|i: int| 0 <= i < 4 ==> (#[trigger] octet_value(p[i])) is Some {
        Some(Seq::new(4, |i: int| octet_value(p[i])->0))
    } else {
        None
    }
}

/// An IPv4 address written as four decimal numbers up to 255, without
/// leading zeros, joined by `.` reads as those four octets, in order.
pub proof fn lemma_ipv4_octets(ps: Seq<Seq<char>>)
    requires
        ps.len() == 4,
        forall|i: int| 0 <= i < 4 ==> {
            &&& 1 <= (#[trigger] ps[i]).len() <= 3
            &&& all_digits(ps[i])
            &&& (ps[i].len() > 1 ==> ps[i][0] != '0')
            &&& dec_value(ps[i]) <= 255
        },
    ensures
        ip_value(join(ps, '.')) == Some(IpAddrSpec::V4(Seq::new(4, |i: int| dec_value(ps[i]) as u8))),
{
    assert forall|i: int, j: int| 0 <= i < ps.len() && 0 <= j < ps[i].len() implies #[trigger] ps[i][j] != '.' by {
        assert(is_digit(ps[i][j]));
    }
    lemma_split_join(ps, '.');
    assert forall|i: int| 0 <= i < 4 implies (#[trigger] octet_value(ps[i])) == Some(dec_value(ps[i]) as u8) by {
        assert(is_digit(ps[i][0]));
        assert(unsigned_digits(ps[i]) == ps[i]);
    }
    assert(Seq::new(4, |i: int| octet_value(ps[i])->0) =~= Seq::new(4, |i: int| dec_value(ps[i]) as u8));
}

/// A group of an IPv6 address: one to four hexadecimal digits.
pub open spec fn group_value(p: Seq<char>) -> Option<u16> {
    if 1 <= p.len() <= 4 && p[0] != '+' {
        match hex_uint_value(p, 0xffff) {
            Some(x) => Some(x as u16),
            None => None,
        }
    } else {
        None
    }
}

/// The groups of `pieces`, when each is a group.
pub open spec fn groups_of(pieces: Seq<Seq<char>>) -> Option<Seq<u16>>
    decreases pieces.len(),
{
    if pieces.len() == 0 {
        Some(Seq::empty())
    } else {
        match (groups_of(pieces.drop_last()), group_value(pieces.last())) {
            (Some(g), Some(x)) => Some(g.push(x)),
            _ => None,
        }
    }
}

/// The groups of `pieces`, where the last piece may be an IPv4 address,
/// which stands for two groups.
pub open spec fn tail_groups(pieces: Seq<Seq<char>>) -> Option<Seq<u16>> {
    if pieces.len() > 0 && ipv4_value(pieces.last()) is Some {
        let o = ipv4_value(pieces.last())->0;
        match groups_of(pieces.drop_last()) {
            Some(g) => Some(g.push((o[0] * 256 + o[1]) as u16).push((o[2] * 256 + o[3]) as u16)),
            None => None,
        }
    } else {
        groups_of(pieces)
    }
}

/// Index of the first `::` in `s`.
pub open spec fn double_colon(s: Seq<char>) -> Option<int>
    decreases s.len(),
{
    if s.len() < 2 {
        None
    } else if s[0] == ':' && s[1] == ':' {
        Some(0)
    } else {
        match double_colon(s.drop_first()) {
            Some(i) => Some(i + 1),
            None => None,
        }
    }
}

proof fn lemma_double_colon(s: Seq<char>)
    ensures
        double_colon(s) matches Some(k) ==> 0 <= k && k + 2 <= s.len() && s[k] == ':' && s[k + 1] == ':',
    decreases s.len(),
{
    if s.len() >= 2 && !(s[0] == ':' && s[1] == ':') {
        lemma_double_colon(s.drop_first());
    }
}

/// The pieces of `s` between colons; none when `s` is empty.
pub open spec fn colon_pieces(s: Seq<char>) -> Seq<Seq<char>> {
    if s.len() == 0 {
        Seq::empty()
    } else {
        split(s, ':')
    }
}

/// The eight groups of an IPv6 address: eight groups between colons (the
/// last two may be an IPv4 address), or groups before and after one `::`,
/// which stands for one or more zero groups.
pub open spec fn ipv6_value(s: Seq<char>) -> Option<Seq<u16>> {
    match double_colon(s) {
        None => match tail_groups(split(s, ':')) {
            Some(g) => if g.len() == 8 {
                Some(g)
            } else {
                None
            },
            None => None,
        },
        Some(k) => match (
            groups_of(colon_pieces(s.subrange(0, k))),
            tail_groups(colon_pieces(s.subrange(k + 2, s.len() as int))),
        ) {
            (Some(h), Some(t)) => if h.len() + t.len() <= 7 {
                Some(h + Seq::new((8 - h.len() - t.len()) as nat, |i: int| 0u16) + t)
            } else {
                None
            },
            _ => None,
        },
    }
}

/// The address `s` denotes: IPv4 first, else IPv6.
pub open spec fn ip_value(s: Seq<char>) -> Option<IpAddrSpec> {
    match ipv4_value(s) {
        Some(o) => Some(IpAddrSpec::V4(o)),
        None => match ipv6_value(s) {
            Some(g) => Some(IpAddrSpec::V6(g)),
            None => None,
        },
    }
}

fn octet_of(p: &Vec<char>) -> (r: Option<u8>)
    ensures
        r == octet_value(p@),
{
    let n = p.len();
    if n < 1 || n > 3 || p[0] == '+' || (n > 1 && p[0] == '0') {
        return None;
    }
    match parse_uint(p, 255) {
        Some(x) => Some(x as u8),
        None => None,
    }
}

fn ipv4_of(v: &Vec<char>) -> (r: Option<[u8; 4]>)
    ensures
        match ipv4_value(v@) {
            Some(o) => r matches Some(x) && x@ == o,
            None => r is None,
        },
{
    let parts = split_chars(v, '.');
    let ghost p = views(parts@);
    if parts.len() != 4 {
        return None;
    }
    let mut o: [u8; 4] = [0u8; 4];
    let mut i: usize = 0;
    while i < 4
        invariant
            p == views(parts@),
            p == split(v@, '.'),
            p.len() == 4,
            i <= 4,
            forall|j: int| 0 <= j < i ==> (#[trigger] octet_value(p[j])) == Some(o@[j]),
        decreases 4 - i,
    {
        assert(p[i as int] == parts@[i as int]@);
        match octet_of(&parts[i]) {
            Some(x) => {
                o[i] = x;
            },
            None => {
                return None;
            },
        }
        i = i + 1;
    }
    assert(o@ =~= Seq::new(4, |j: int| octet_value(p[j])->0));
    Some(o)
}

fn group_of(p: &Vec<char>) -> (r: Option<u16>)
    ensures
        r == group_value(p@),
{
    let n = p.len();
    if n < 1 || n > 4 || p[0] == '+' {
        return None;
    }
    match parse_hex(p, 0xffff) {
        Some(x) => Some(x as u16),
        None => None,
    }
}

proof fn lemma_groups_none(p: Seq<Seq<char>>, i: int)
    requires
        0 <= i <= p.len(),
        groups_of(p.subrange(0, i)) is None,
    ensures
        groups_of(p) is None,
    decreases p.len() - i,
{
    if i < p.len() {
        assert(p.subrange(0, i + 1).drop_last() =~= p.subrange(0, i));
        lemma_groups_none(p, i + 1);
    } else {
        assert(p.subrange(0, i) =~= p);
    }
}

proof fn lemma_groups_len(p: Seq<Seq<char>>)
    ensures
        groups_of(p) matches Some(g) ==> g.len() == p.len(),
    decreases p.len(),
{
    if p.len() > 0 {
        lemma_groups_len(p.drop_last());
    }
}

/// The groups of the pieces `parts[from..to]`.
fn groups_in(parts: &Vec<Vec<char>>, from: usize, to: usize) -> (r: Option<Vec<u16>>)
    requires
        from <= to <= parts@.len(),
    ensures
        match groups_of(views(parts@).subrange(from as int, to as int)) {
            Some(g) => r matches Some(x) && x@ == g,
            None => r is None,
        },
{
    let ghost p = views(parts@).subrange(from as int, to as int);
    let mut out: Vec<u16> = Vec::new();
    let mut i = from;
    assert(p.subrange(0, 0) =~= Seq::<Seq<char>>::empty());
    while i < to
        invariant
            from <= i <= to,
            to <= parts@.len(),
            p == views(parts@).subrange(from as int, to as int),
            groups_of(p.subrange(0, i - from)) == Some(out@),
        decreases to - i,
    {
        assert(p.subrange(0, i - from + 1).drop_last() =~= p.subrange(0, i - from));
        assert(p.subrange(0, i - from + 1).last() == parts@[i as int]@);
        match group_of(&parts[i]) {
            Some(x) => {
                out.push(x);
            },
            None => {
                proof {
                    lemma_groups_none(p, i - from + 1);
                }
                return None;
            },
        }
        i = i + 1;
    }
    assert(p.subrange(0, p.len() as int) =~= p);
    Some(out)
}

/// The groups of the pieces, the last of which may be an IPv4 address.
fn tail_groups_of(parts: &Vec<Vec<char>>) -> (r: Option<Vec<u16>>)
    ensures
        match tail_groups(views(parts@)) {
            Some(g) => r matches Some(x) && x@ == g,
            None => r is None,
        },
{
    let n = parts.len();
    let ghost p = views(parts@);
    assert(p.subrange(0, n as int) =~= p);
    if n > 0 {
        assert(p.last() == parts@[n - 1]@);
        if let Some(o) = ipv4_of(&parts[n - 1]) {
            assert(p.subrange(0, n - 1) =~= p.drop_last());
            return match groups_in(parts, 0, n - 1) {
                Some(mut g) => {
                    g.push((o[0] as u16) * 256 + o[1] as u16);
                    g.push((o[2] as u16) * 256 + o[3] as u16);
                    Some(g)
                },
                None => None,
            };
        }
    }
    groups_in(parts, 0, n)
}

fn find_double_colon(v: &Vec<char>) -> (r: Option<usize>)
    ensures
        match double_colon(v@) {
            Some(k) => r matches Some(x) && x == k && x + 2 <= v@.len(),
            None => r is None,
        },
{
    let n = v.len();
    let mut i: usize = 0;
    assert(v@.subrange(0, n as int) =~= v@);
    proof {
        lemma_double_colon(v@);
    }
    while n > 0 && i < n - 1
        invariant
            n == v@.len(),
            i <= n,
            double_colon(v@) == match double_colon(v@.subrange(i as int, n as int)) {
                Some(k) => Some(k + i),
                None => None::<int>,
            },
        decreases n - i,
    {
        let ghost rest = v@.subrange(i as int, n as int);
        if v[i] == ':' && v[i + 1] == ':' {
            return Some(i);
        }
        proof {
            lemma_double_colon(rest.drop_first());
        }
        assert(rest.drop_first() =~= v@.subrange(i as int + 1, n as int));
        i = i + 1;
    }
    None
}

fn colon_pieces_of(v: &Vec<char>) -> (r: Vec<Vec<char>>)
    ensures
        views(r@) == colon_pieces(v@),
{
    if v.len() == 0 {
        let r: Vec<Vec<char>> = Vec::new();
        assert(views(r@) =~= Seq::<Seq<char>>::empty());
        r
    } else {
        split_chars(v, ':')
    }
}

fn ipv6_of(v: &Vec<char>) -> (r: Option<[u16; 8]>)
    ensures
        match ipv6_value(v@) {
            Some(g) => r matches Some(x) && x@ == g,
            None => r is None,
        },
{
    let groups = match find_double_colon(v) {
        None => {
            let parts = split_chars(v, ':');
            match tail_groups_of(&parts) {
                Some(g) => if g.len() == 8 {
                    g
                } else {
                    return None;
                },
                None => return None,
            }
        },
        Some(k) => {
            proof {
                lemma_double_colon(v@);
            }
            let n = v.len();
            assert(k + 2 <= n);
            let head = slice_chars(v, 0, k);
            let tail = slice_chars(v, k + 2, n);
            let hp = colon_pieces_of(&head);
            let tp = colon_pieces_of(&tail);
            assert(views(hp@).subrange(0, hp@.len() as int) =~= views(hp@));
            let h = match groups_in(&hp, 0, hp.len()) {
                Some(h) => h,
                None => return None,
            };
            let t = match tail_groups_of(&tp) {
                Some(t) => t,
                None => return None,
            };
            if h.len() > 7 || t.len() > 7 - h.len() {
                return None;
            }
            let mut g = h;
            let zeros = 8 - g.len() - t.len();
            let ghost hg = g@;
            let mut j: usize = 0;
            while j < zeros
                invariant
                    j <= zeros,
                    g@ == hg + Seq::new(j as nat, |i: int| 0u16),
                decreases zeros - j,
            {
                g.push(0u16);
                assert(g@ =~= hg + Seq::new(j as nat + 1, |i: int| 0u16));
                j = j + 1;
            }
            let mut i: usize = 0;
            let ghost mid = g@;
            while i < t.len()
                invariant
                    i <= t@.len(),
                    g@ == mid + t@.subrange(0, i as int),
                decreases t@.len() - i,
            {
                g.push(t[i]);
                assert(g@ =~= mid + t@.subrange(0, i as int + 1));
                i = i + 1;
            }
            assert(t@.subrange(0, t@.len() as int) =~= t@);
            g
        },
    };
    let mut out: [u16; 8] = [0u16; 8];
    let mut i: usize = 0;
    while i < 8
        invariant
            groups@.len() == 8,
            i <= 8,
            forall|j: int| 0 <= j < i ==> out@[j] == groups@[j],
        decreases 8 - i,
    {
        out[i] = groups[i];
        i = i + 1;
    }
    assert(out@ =~= groups@);
    Some(out)
}

impl IpAddr {
    /// Parses an IPv4 address, else an IPv6 address.
    pub fn from_str(s: &str) -> (r: Option<IpAddr>)
        ensures
            match ip_value(s@) {
                Some(a) => r matches Some(x) && x@ == a,
                None => r is None,
            },
    {
        let v = chars_of(s);
        match ipv4_of(&v) {
            Some(o) => Some(IpAddr::V4(o)),
            None => match ipv6_of(&v) {
                Some(g) => Some(IpAddr::V6(g)),
                None => None,
            },
        }
    }
}

} // verus!
