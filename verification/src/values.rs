//! Grammars of option values: toggles, byte sizes, integer lists, string
//! lists and `[a@b,...]` tuple lists, and the typed conversions of an option's
//! value.
use vstd::prelude::*;

use crate::option_parser::{
    raw, raw_or_empty, split_commas, split_commas_spec, EntryV, OptErr, OptionParser,
    OptionParserError,
};
use crate::text::{
    eq_ignore_case, eq_ignore_case_str, parse_i32, parse_u16, parse_u32, parse_u64, parse_u8,
    all_digits, dec_value, is_digit, is_ws, parse_usize, slice_chars, split, split_chars, string_from, string_of,
    trim, trim_chars, trim_end, trim_start, uint_value, unsigned_digits, views, i32_value,
};

verus! {

// ---------------------------------------------------------------------------
// Toggles
// ---------------------------------------------------------------------------

/// `on`/`true` and `off`/`false` in any ASCII case; the empty value is `false`.
pub open spec fn toggle_value(v: Seq<char>) -> Option<bool> {
    if v.len() == 0 {
        Some(false)
    } else if eq_ignore_case(v, "on"@) || eq_ignore_case(v, "true"@) {
        Some(true)
    } else if eq_ignore_case(v, "off"@) || eq_ignore_case(v, "false"@) {
        Some(false)
    } else {
        None
    }
}

pub fn parse_toggle(v: &Vec<char>) -> (r: Option<bool>)
    ensures
        r == toggle_value(v@),
{
    if v.len() == 0 {
        Some(false)
    } else if eq_ignore_case_str(v, "on") || eq_ignore_case_str(v, "true") {
        Some(true)
    } else if eq_ignore_case_str(v, "off") || eq_ignore_case_str(v, "false") {
        Some(false)
    } else {
        None
    }
}

// ---------------------------------------------------------------------------
// Byte sizes
// ---------------------------------------------------------------------------

pub open spec fn is_size_suffix(c: char) -> bool {
    c == 'K' || c == 'M' || c == 'G'
}

/// `s` without its trailing `K`, `M` and `G` characters.
pub open spec fn strip_size_suffix(s: Seq<char>) -> Seq<char>
    decreases s.len(),
{
    if s.len() > 0 && is_size_suffix(s.last()) {
        strip_size_suffix(s.drop_last())
    } else {
        s
    }
}

/// The factor that the last character of `s` selects: `K` is 2^10, `M` is
/// 2^20, `G` is 2^30, anything else 1.
pub open spec fn size_multiplier(s: Seq<char>) -> nat {
    if s.len() > 0 && s.last() == 'K' {
        1024
    } else if s.len() > 0 && s.last() == 'M' {
        1048576
    } else if s.len() > 0 && s.last() == 'G' {
        1073741824
    } else {
        1
    }
}

/// A byte size such as `512M`: a decimal number times the multiplier of its
/// suffix, shifted into 64 bits (bits beyond the 64th are lost).
pub open spec fn bytes_value(v: Seq<char>) -> Option<u64> {
    let t = trim(v);
    match uint_value(strip_size_suffix(t), u64::MAX as nat) {
        Some(x) => Some(((x * size_multiplier(t)) % 0x1_0000_0000_0000_0000) as u64),
        None => None,
    }
}

proof fn lemma_trim_digits_then(d: Seq<char>, t: Seq<char>)
    requires
        d.len() > 0,
        all_digits(d),
        t.len() > 0 ==> !is_ws(t.last()),
    ensures
        trim(d + t) == d + t,
{
    let s = d + t;
    assert(s[0] == d[0]);
    assert(is_digit(d[0]));
    assert(!is_ws(s[0]));
    assert(trim_start(s) == s);
    if t.len() > 0 {
        assert(s.last() == t.last());
    } else {
        assert(s.last() == d.last());
        assert(is_digit(d[d.len() - 1]));
    }
    assert(trim_end(s) == s);
}

/// A byte size written as a decimal number `d` alone, or followed by `K`,
/// `M` or `G`, is that number times 1, 2^10, 2^20 or 2^30, with the bits
/// beyond the 64th lost.
pub proof fn lemma_bytes_value_units(d: Seq<char>)
    requires
        d.len() > 0,
        all_digits(d),
        dec_value(d) <= u64::MAX,
    ensures
        bytes_value(d) == Some(dec_value(d) as u64),
        bytes_value(d.push('K')) == Some(((dec_value(d) * 1024) % 0x1_0000_0000_0000_0000) as u64),
        bytes_value(d.push('M')) == Some(((dec_value(d) * 1048576) % 0x1_0000_0000_0000_0000) as u64),
        bytes_value(d.push('G')) == Some(((dec_value(d) * 1073741824) % 0x1_0000_0000_0000_0000) as u64),
{
    assert(is_digit(d[0]));
    assert(unsigned_digits(d) == d);
    assert(is_digit(d[d.len() - 1]));
    assert(strip_size_suffix(d) == d);
    lemma_trim_digits_then(d, Seq::empty());
    assert(d + Seq::<char>::empty() =~= d);
    let units = seq!['K', 'M', 'G'];
    assert forall|k: int| 0 <= k < 3 implies {
        let t = d.push(#[trigger] units[k]);
        &&& trim(t) == t
        &&& strip_size_suffix(t) == d
    } by {
        let c = units[k];
        assert(d.push(c) =~= d + seq![c]);
        assert(seq![c].last() == c);
        assert(!is_ws(c));
        lemma_trim_digits_then(d, seq![c]);
        assert(d.push(c).drop_last() =~= d);
    }
    assert(units[0] == 'K' && units[1] == 'M' && units[2] == 'G');
}

pub fn parse_bytes(v: &Vec<char>) -> (r: Option<u64>)
    ensures
        r == bytes_value(v@),
{
    let t = trim_chars(v);
    let n = t.len();
    let mult: u64 = if n > 0 && t[n - 1] == 'K' {
        1024
    } else if n > 0 && t[n - 1] == 'M' {
        1048576
    } else if n > 0 && t[n - 1] == 'G' {
        1073741824
    } else {
        1
    };
    let mut j = n;
    assert(t@.subrange(0, n as int) =~= t@);
    while j > 0 && (t[j - 1] == 'K' || t[j - 1] == 'M' || t[j - 1] == 'G')
        invariant
            j <= n,
            n == t@.len(),
            strip_size_suffix(t@) == strip_size_suffix(t@.subrange(0, j as int)),
        decreases j,
    {
        assert(t@.subrange(0, j as int).drop_last() =~= t@.subrange(0, j - 1));
        j = j - 1;
    }
    let digits = slice_chars(&t, 0, j);
    match parse_u64(&digits) {
        Some(x) => {
            let p: u128 = (x as u128) * (mult as u128);
            Some((p % 0x1_0000_0000_0000_0000u128) as u64)
        },
        None => None,
    }
}

// ---------------------------------------------------------------------------
// Bracket trimming
// ---------------------------------------------------------------------------

pub open spec fn is_bracket(c: char) -> bool {
    c == '[' || c == ']'
}

pub open spec fn trim_brackets_start(s: Seq<char>) -> Seq<char>
    decreases s.len(),
{
    if s.len() > 0 && is_bracket(s[0]) {
        trim_brackets_start(s.drop_first())
    } else {
        s
    }
}

pub open spec fn trim_brackets_end(s: Seq<char>) -> Seq<char>
    decreases s.len(),
{
    if s.len() > 0 && is_bracket(s.last()) {
        trim_brackets_end(s.drop_last())
    } else {
        s
    }
}

/// `s` without the `[` and `]` characters at either end.
pub open spec fn trim_brackets(s: Seq<char>) -> Seq<char> {
    trim_brackets_end(trim_brackets_start(s))
}

fn trim_bracket_chars(v: &Vec<char>) -> (r: Vec<char>)
    ensures
        r@ == trim_brackets(v@),
{
    let n = v.len();
    let mut i: usize = 0;
    assert(v@.subrange(0, n as int) =~= v@);
    while i < n && (v[i] == '[' || v[i] == ']')
        invariant
            n == v@.len(),
            i <= n,
            trim_brackets_start(v@) == trim_brackets_start(v@.subrange(i as int, n as int)),
        decreases n - i,
    {
        assert(v@.subrange(i as int, n as int).drop_first() =~= v@.subrange(i as int + 1, n as int));
        i = i + 1;
    }
    let ghost t = v@.subrange(i as int, n as int);
    let mut j: usize = n;
    while j > i && (v[j - 1] == '[' || v[j - 1] == ']')
        invariant
            i <= j <= n,
            n == v@.len(),
            t == v@.subrange(i as int, n as int),
            trim_brackets_end(t) == trim_brackets_end(v@.subrange(i as int, j as int)),
        decreases j,
    {
        assert(v@.subrange(i as int, j as int).drop_last() =~= v@.subrange(i as int, j - 1));
        j = j - 1;
    }
    slice_chars(v, i, j)
}

// ---------------------------------------------------------------------------
// Integer lists
// ---------------------------------------------------------------------------

/// One item of an integer list: `a` or an increasing range `a-b` (both ends
/// included).
pub open spec fn range_value(p: Seq<char>) -> Option<Seq<u64>> {
    let parts = split(p, '-');
    if parts.len() > 2 {
        None
    } else {
        match uint_value(parts[0], u64::MAX as nat) {
            None => None,
            Some(a) => if parts.len() == 2 {
                match uint_value(parts[1], u64::MAX as nat) {
                    None => None,
                    Some(b) => if a >= b {
                        None
                    } else {
                        Some(Seq::new((b - a + 1) as nat, |j: int| (a + j) as u64))
                    },
                }
            } else {
                Some(seq![a as u64])
            },
        }
    }
}

/// The concatenation of the items' values; `None` when an item is invalid.
pub open spec fn ranges_value(pieces: Seq<Seq<char>>) -> Option<Seq<u64>>
    decreases pieces.len(),
{
    if pieces.len() == 0 {
        Some(Seq::empty())
    } else {
        match (ranges_value(pieces.drop_last()), range_value(pieces.last())) {
            (Some(a), Some(b)) => Some(a + b),
            _ => None,
        }
    }
}

/// A comma-separated list of integers and ranges, optionally in brackets:
/// `[1,3-5]` is 1, 3, 4, 5.
pub open spec fn intlist_value(v: Seq<char>) -> Option<Seq<u64>> {
    ranges_value(split(trim_brackets(trim(v)), ','))
}

fn parse_range(p: &Vec<char>, out: &mut Vec<u64>) -> (ok: bool)
    ensures
        ok == (range_value(p@) is Some),
        ok ==> final(out)@ == old(out)@ + range_value(p@)->0,
{
    let parts = split_chars(p, '-');
    proof {
        crate::text::lemma_split_nonempty(p@, '-');
    }
    if parts.len() > 2 {
        return false;
    }
    assert(parts@[0]@ == split(p@, '-')[0]);
    let a = match parse_u64(&parts[0]) {
        Some(a) => a,
        None => {
            return false;
        },
    };
    if parts.len() == 2 {
        assert(parts@[1]@ == split(p@, '-')[1]);
        let b = match parse_u64(&parts[1]) {
            Some(b) => b,
            None => {
                return false;
            },
        };
        if a >= b {
            return false;
        }
        let ghost o = old(out)@;
        let ghost want = Seq::new((b - a + 1) as nat, |j: int| (a + j) as u64);
        out.push(a);
        let mut k = a;
        while k < b
            invariant
                a <= k <= b,
                out@ == o + want.subrange(0, (k - a + 1) as int),
                want == Seq::new((b - a + 1) as nat, |j: int| (a + j) as u64),
            decreases b - k,
        {
            k = k + 1;
            out.push(k);
            assert(out@ =~= o + want.subrange(0, (k - a + 1) as int));
        }
        assert(want.subrange(0, (b - a + 1) as int) =~= want);
        true
    } else {
        let ghost o = old(out)@;
        out.push(a);
        assert(out@ =~= o + seq![a]);
        true
    }
}

/// Parses an integer list.
pub fn parse_intlist(v: &Vec<char>) -> (r: Option<Vec<u64>>)
    ensures
        match r {
            Some(l) => intlist_value(v@) == Some(l@),
            None => intlist_value(v@) is None,
        },
{
    let t = trim_chars(v);
    let b = trim_bracket_chars(&t);
    let pieces = split_chars(&b, ',');
    let ghost ps = views(pieces@);
    let mut out: Vec<u64> = Vec::new();
    let mut i: usize = 0;
    assert(ps.subrange(0, 0) =~= Seq::<Seq<char>>::empty());
    while i < pieces.len()
        invariant
            i <= pieces@.len(),
            ps == views(pieces@),
            intlist_value(v@) == ranges_value(ps),
            ranges_value(ps.subrange(0, i as int)) == Some(out@),
        decreases pieces@.len() - i,
    {
        assert(ps.subrange(0, i as int + 1).drop_last() =~= ps.subrange(0, i as int));
        assert(ps.subrange(0, i as int + 1).last() == pieces@[i as int]@);
        if !parse_range(&pieces[i], &mut out) {
            proof {
                lemma_ranges_none(ps, i as int + 1);
                assert(ps.subrange(0, ps.len() as int) =~= ps);
            }
            return None;
        }
        i = i + 1;
    }
    assert(ps.subrange(0, ps.len() as int) =~= ps);
    Some(out)
}

proof fn lemma_ranges_none(ps: Seq<Seq<char>>, i: int)
    requires
        0 <= i <= ps.len(),
        ranges_value(ps.subrange(0, i)) is None,
    ensures
        ranges_value(ps) is None,
    decreases ps.len() - i,
{
    if i < ps.len() {
        assert(ps.subrange(0, i + 1).drop_last() =~= ps.subrange(0, i));
        lemma_ranges_none(ps, i + 1);
    } else {
        assert(ps.subrange(0, i) =~= ps);
    }
}

// ---------------------------------------------------------------------------
// String lists and tuple lists
// ---------------------------------------------------------------------------

/// A comma-separated list of strings, optionally in brackets.
pub open spec fn strlist_value(v: Seq<char>) -> Seq<Seq<char>> {
    split(trim_brackets(trim(v)), ',')
}

pub fn parse_strlist(v: &Vec<char>) -> (r: Vec<Vec<char>>)
    ensures
        views(r@) == strlist_value(v@),
{
    let t = trim_chars(v);
    let b = trim_bracket_chars(&t);
    split_chars(&b, ',')
}

/// The pairs `a@b` of a list of tuples.
pub open spec fn pairs_of(toks: Seq<Seq<char>>) -> Option<Seq<(Seq<char>, Seq<char>)>>
    decreases toks.len(),
{
    if toks.len() == 0 {
        Some(Seq::empty())
    } else {
        let parts = split(toks.last(), '@');
        match pairs_of(toks.drop_last()) {
            Some(a) => if parts.len() == 2 {
                Some(a.push((parts[0], parts[1])))
            } else {
                None
            },
            None => None,
        }
    }
}

/// A bracketed list of `a@b` tuples such as `[0@[0,2],1@[1,3]]`; the tuples
/// are separated by top-level commas.
pub open spec fn tuple_pairs(v: Seq<char>) -> Option<Seq<(Seq<char>, Seq<char>)>> {
    let t = trim(v);
    if t.len() >= 2 && t[0] == '[' && t.last() == ']' {
        match split_commas_spec(t.subrange(1, t.len() - 1)) {
            Some(toks) => pairs_of(toks),
            None => None,
        }
    } else {
        None
    }
}

pub open spec fn pair_views(p: Seq<(Vec<char>, Vec<char>)>) -> Seq<(Seq<char>, Seq<char>)> {
    Seq::new(p.len(), |i: int| (p[i].0@, p[i].1@))
}

proof fn lemma_pairs_none(ps: Seq<Seq<char>>, i: int)
    requires
        0 <= i <= ps.len(),
        pairs_of(ps.subrange(0, i)) is None,
    ensures
        pairs_of(ps) is None,
    decreases ps.len() - i,
{
    if i < ps.len() {
        assert(ps.subrange(0, i + 1).drop_last() =~= ps.subrange(0, i));
        lemma_pairs_none(ps, i + 1);
    } else {
        assert(ps.subrange(0, i) =~= ps);
    }
}

/// Parses a tuple list into its raw pairs.
pub fn parse_tuple_pairs(v: &Vec<char>) -> (r: Option<Vec<(Vec<char>, Vec<char>)>>)
    ensures
        match r {
            Some(p) => tuple_pairs(v@) == Some(pair_views(p@)),
            None => tuple_pairs(v@) is None,
        },
{
    let t = trim_chars(v);
    let n = t.len();
    if !(n >= 2 && t[0] == '[' && t[n - 1] == ']') {
        return None;
    }
    let body = slice_chars(&t, 1, n - 1);
    let toks = match split_commas(&body) {
        Some(toks) => toks,
        None => {
            return None;
        },
    };
    let ghost ts = views(toks@);
    assert(body@ =~= t@.subrange(1, n - 1));
    assert(tuple_pairs(v@) == pairs_of(ts));
    let mut out: Vec<(Vec<char>, Vec<char>)> = Vec::new();
    let mut i: usize = 0;
    assert(ts.subrange(0, 0) =~= Seq::<Seq<char>>::empty());
    assert(pair_views(out@) =~= Seq::<(Seq<char>, Seq<char>)>::empty());
    while i < toks.len()
        invariant
            i <= toks@.len(),
            ts == views(toks@),
            tuple_pairs(v@) == pairs_of(ts),
            pairs_of(ts.subrange(0, i as int)) == Some(pair_views(out@)),
        decreases toks@.len() - i,
    {
        assert(ts.subrange(0, i as int + 1).drop_last() =~= ts.subrange(0, i as int));
        assert(ts.subrange(0, i as int + 1).last() == toks@[i as int]@);
        let mut parts = split_chars(&toks[i], '@');
        if parts.len() != 2 {
            proof {
                lemma_pairs_none(ts, i as int + 1);
            }
            return None;
        }
        let ghost pv = views(parts@);
        let b = parts.pop().unwrap();
        let a = parts.pop().unwrap();
        assert(a@ == pv[0] && b@ == pv[1]);
        let ghost old_out = pair_views(out@);
        out.push((a, b));
        assert(pair_views(out@) =~= old_out.push((pv[0], pv[1])));
        i = i + 1;
    }
    assert(ts.subrange(0, ts.len() as int) =~= ts);
    Some(out)
}

// ---------------------------------------------------------------------------
// Typed conversions of an option's value
// ---------------------------------------------------------------------------

/// The conversion of an option `k` whose non-empty value is `raw`: absent or
/// empty values give `None`; a value that does not convert is a `Conversion`
/// error naming the option and the value.
pub open spec fn lift<T>(k: Seq<char>, raw: Option<Seq<char>>, parsed: Option<T>) -> Result<
    Option<T>,
    OptErr,
> {
    match raw {
        None => Ok(None),
        Some(v) => match parsed {
            Some(x) => Ok(Some(x)),
            None => Err(OptErr::Conversion(k, v)),
        },
    }
}

pub open spec fn conv_view<T>(r: Result<Option<T>, OptionParserError>) -> Result<Option<T>, OptErr> {
    match r {
        Ok(x) => Ok(x),
        Err(e) => Err(e@),
    }
}

pub open spec fn u8_value(v: Seq<char>) -> Option<u8> {
    match uint_value(v, u8::MAX as nat) {
        Some(x) => Some(x as u8),
        None => None,
    }
}

pub open spec fn u16_value(v: Seq<char>) -> Option<u16> {
    match uint_value(v, u16::MAX as nat) {
        Some(x) => Some(x as u16),
        None => None,
    }
}

pub open spec fn u32_value(v: Seq<char>) -> Option<u32> {
    match uint_value(v, u32::MAX as nat) {
        Some(x) => Some(x as u32),
        None => None,
    }
}

pub open spec fn u64_value(v: Seq<char>) -> Option<u64> {
    match uint_value(v, u64::MAX as nat) {
        Some(x) => Some(x as u64),
        None => None,
    }
}

pub open spec fn usize_value(v: Seq<char>) -> Option<usize> {
    match uint_value(v, usize::MAX as nat) {
        Some(x) => Some(x as usize),
        None => None,
    }
}

pub open spec fn conv_toggle(e: Seq<EntryV>, k: Seq<char>) -> Result<Option<bool>, OptErr> {
    lift(k, raw(e, k), toggle_value(raw_or_empty(e, k)))
}

pub open spec fn conv_bytes(e: Seq<EntryV>, k: Seq<char>) -> Result<Option<u64>, OptErr> {
    lift(k, raw(e, k), bytes_value(raw_or_empty(e, k)))
}

pub open spec fn conv_u8(e: Seq<EntryV>, k: Seq<char>) -> Result<Option<u8>, OptErr> {
    lift(k, raw(e, k), u8_value(raw_or_empty(e, k)))
}

pub open spec fn conv_u16(e: Seq<EntryV>, k: Seq<char>) -> Result<Option<u16>, OptErr> {
    lift(k, raw(e, k), u16_value(raw_or_empty(e, k)))
}

pub open spec fn conv_u32(e: Seq<EntryV>, k: Seq<char>) -> Result<Option<u32>, OptErr> {
    lift(k, raw(e, k), u32_value(raw_or_empty(e, k)))
}

pub open spec fn conv_u64(e: Seq<EntryV>, k: Seq<char>) -> Result<Option<u64>, OptErr> {
    lift(k, raw(e, k), u64_value(raw_or_empty(e, k)))
}

pub open spec fn conv_usize(e: Seq<EntryV>, k: Seq<char>) -> Result<Option<usize>, OptErr> {
    lift(k, raw(e, k), usize_value(raw_or_empty(e, k)))
}

pub open spec fn conv_i32(e: Seq<EntryV>, k: Seq<char>) -> Result<Option<i32>, OptErr> {
    lift(k, raw(e, k), i32_value(raw_or_empty(e, k)))
}

pub open spec fn conv_intlist(e: Seq<EntryV>, k: Seq<char>) -> Result<Option<Seq<u64>>, OptErr> {
    lift(k, raw(e, k), intlist_value(raw_or_empty(e, k)))
}

pub open spec fn list_conv_view(r: Result<Option<Vec<u64>>, OptionParserError>) -> Result<
    Option<Seq<u64>>,
    OptErr,
> {
    match r {
        Ok(Some(v)) => Ok(Some(v@)),
        Ok(None) => Ok(None),
        Err(e) => Err(e@),
    }
}

/// Option `k` of table `e` is given with a value that reads as on.
pub open spec fn given_on(e: Seq<EntryV>, k: Seq<char>) -> bool {
    raw(e, k) matches Some(v) && toggle_value(v) == Some(true)
}

/// Option `k` of table `e` is given with a value that reads as off.
pub open spec fn given_off(e: Seq<EntryV>, k: Seq<char>) -> bool {
    raw(e, k) matches Some(v) && toggle_value(v) == Some(false)
}

/// Option `k` of table `e`, when given, reads as a toggle.
pub open spec fn toggle_ok(e: Seq<EntryV>, k: Seq<char>) -> bool {
    raw(e, k) matches Some(v) ==> toggle_value(v) is Some
}

/// Option `k` of table `e`, when given, reads as a byte size.
pub open spec fn bytes_ok(e: Seq<EntryV>, k: Seq<char>) -> bool {
    raw(e, k) matches Some(v) ==> bytes_value(v) is Some
}

/// The byte size given for option `k` of table `e`, if any.
pub open spec fn given_bytes(e: Seq<EntryV>, k: Seq<char>) -> Option<u64> {
    match raw(e, k) {
        Some(v) => bytes_value(v),
        None => None,
    }
}

/// The 16-bit number given for option `k` of table `e`, if any.
pub open spec fn given_u16(e: Seq<EntryV>, k: Seq<char>) -> Option<u16> {
    match raw(e, k) {
        Some(v) => u16_value(v),
        None => None,
    }
}

/// The 32-bit number given for option `k` of table `e`, if any.
pub open spec fn given_u32(e: Seq<EntryV>, k: Seq<char>) -> Option<u32> {
    match raw(e, k) {
        Some(v) => u32_value(v),
        None => None,
    }
}

/// The 64-bit number given for option `k` of table `e`, if any.
pub open spec fn given_u64(e: Seq<EntryV>, k: Seq<char>) -> Option<u64> {
    match raw(e, k) {
        Some(v) => u64_value(v),
        None => None,
    }
}

/// The `usize` number given for option `k` of table `e`, if any.
pub open spec fn given_usize(e: Seq<EntryV>, k: Seq<char>) -> Option<usize> {
    match raw(e, k) {
        Some(v) => usize_value(v),
        None => None,
    }
}

/// The 8-bit number given for option `k` of table `e`, if any.
pub open spec fn given_u8(e: Seq<EntryV>, k: Seq<char>) -> Option<u8> {
    match raw(e, k) {
        Some(v) => u8_value(v),
        None => None,
    }
}

/// The signed 32-bit number given for option `k` of table `e`, if any.
pub open spec fn given_i32(e: Seq<EntryV>, k: Seq<char>) -> Option<i32> {
    match raw(e, k) {
        Some(v) => i32_value(v),
        None => None,
    }
}

/// The conversion error of option `option` with value `v`.
pub fn conversion_error(option: &str, v: &Vec<char>) -> (e: OptionParserError)
    ensures
        e@ == OptErr::Conversion(option@, v@),
{
    OptionParserError::Conversion(string_from(option), string_of(v))
}

impl OptionParser {
    pub fn convert_toggle(&self, option: &str) -> (r: Result<Option<bool>, OptionParserError>)
        ensures
            conv_view(r) == conv_toggle(self@, option@),
    {
        match self.raw(option) {
            None => Ok(None),
            Some(v) => match parse_toggle(&v) {
                Some(x) => Ok(Some(x)),
                None => Err(conversion_error(option, &v)),
            },
        }
    }

    pub fn convert_bytes(&self, option: &str) -> (r: Result<Option<u64>, OptionParserError>)
        ensures
            conv_view(r) == conv_bytes(self@, option@),
    {
        match self.raw(option) {
            None => Ok(None),
            Some(v) => match parse_bytes(&v) {
                Some(x) => Ok(Some(x)),
                None => Err(conversion_error(option, &v)),
            },
        }
    }

    pub fn convert_u8(&self, option: &str) -> (r: Result<Option<u8>, OptionParserError>)
        ensures
            conv_view(r) == conv_u8(self@, option@),
    {
        match self.raw(option) {
            None => Ok(None),
            Some(v) => match parse_u8(&v) {
                Some(x) => Ok(Some(x)),
                None => Err(conversion_error(option, &v)),
            },
        }
    }

    pub fn convert_u16(&self, option: &str) -> (r: Result<Option<u16>, OptionParserError>)
        ensures
            conv_view(r) == conv_u16(self@, option@),
    {
        match self.raw(option) {
            None => Ok(None),
            Some(v) => match parse_u16(&v) {
                Some(x) => Ok(Some(x)),
                None => Err(conversion_error(option, &v)),
            },
        }
    }

    pub fn convert_u32(&self, option: &str) -> (r: Result<Option<u32>, OptionParserError>)
        ensures
            conv_view(r) == conv_u32(self@, option@),
    {
        match self.raw(option) {
            None => Ok(None),
            Some(v) => match parse_u32(&v) {
                Some(x) => Ok(Some(x)),
                None => Err(conversion_error(option, &v)),
            },
        }
    }

    pub fn convert_u64(&self, option: &str) -> (r: Result<Option<u64>, OptionParserError>)
        ensures
            conv_view(r) == conv_u64(self@, option@),
    {
        match self.raw(option) {
            None => Ok(None),
            Some(v) => match parse_u64(&v) {
                Some(x) => Ok(Some(x)),
                None => Err(conversion_error(option, &v)),
            },
        }
    }

    pub fn convert_usize(&self, option: &str) -> (r: Result<Option<usize>, OptionParserError>)
        ensures
            conv_view(r) == conv_usize(self@, option@),
    {
        match self.raw(option) {
            None => Ok(None),
            Some(v) => match parse_usize(&v) {
                Some(x) => Ok(Some(x)),
                None => Err(conversion_error(option, &v)),
            },
        }
    }

    pub fn convert_i32(&self, option: &str) -> (r: Result<Option<i32>, OptionParserError>)
        ensures
            conv_view(r) == conv_i32(self@, option@),
    {
        match self.raw(option) {
            None => Ok(None),
            Some(v) => match parse_i32(&v) {
                Some(x) => Ok(Some(x)),
                None => Err(conversion_error(option, &v)),
            },
        }
    }

    /// The value as a string, when it is not empty.
    pub fn convert_string(&self, option: &str) -> (r: Option<String>)
        ensures
            match r {
                Some(s) => raw(self@, option@) == Some(s@),
                None => raw(self@, option@) is None,
            },
    {
        match self.raw(option) {
            None => None,
            Some(v) => Some(string_of(&v)),
        }
    }

    pub fn convert_intlist(&self, option: &str) -> (r: Result<Option<Vec<u64>>, OptionParserError>)
        ensures
            list_conv_view(r) == conv_intlist(self@, option@),
    {
        match self.raw(option) {
            None => Ok(None),
            Some(v) => match parse_intlist(&v) {
                Some(x) => Ok(Some(x)),
                None => Err(conversion_error(option, &v)),
            },
        }
    }
}

} // verus!
