//! The `key=value,key,...` option grammar used by every command-line
//! parameter, and the value grammars (toggles, byte sizes, integer lists,
//! string lists, tuple lists) that its options convert to.
use vstd::prelude::*;

use crate::text::{
    chars_eq, chars_of, find_char, index_of, slice_chars, string_from, string_of, trim, trim_chars,
    views,
};

verus! {

// ---------------------------------------------------------------------------
// Errors
// ---------------------------------------------------------------------------

/// Errors of the option grammar.
#[derive(Debug, PartialEq, Eq)]
pub enum OptionParserError {
    /// An option that the parser does not know.
    UnknownOption(String),
    /// Malformed input.
    InvalidSyntax(String),
    /// The value of an option (first: option, second: value) does not convert.
    Conversion(String, String),
    /// An invalid value.
    InvalidValue(String),
}

/// The mathematical counterpart of [`OptionParserError`].
pub enum OptErr {
    UnknownOption(Seq<char>),
    InvalidSyntax(Seq<char>),
    Conversion(Seq<char>, Seq<char>),
    InvalidValue(Seq<char>),
}

impl View for OptionParserError {
    type V = OptErr;

    open spec fn view(&self) -> OptErr {
        match self {
            OptionParserError::UnknownOption(s) => OptErr::UnknownOption(s@),
            OptionParserError::InvalidSyntax(s) => OptErr::InvalidSyntax(s@),
            OptionParserError::Conversion(a, b) => OptErr::Conversion(a@, b@),
            OptionParserError::InvalidValue(s) => OptErr::InvalidValue(s@),
        }
    }
}

// ---------------------------------------------------------------------------
// Splitting on top-level commas
// ---------------------------------------------------------------------------

/// State of the comma splitter after a prefix of its input.
pub struct ScanState {
    pub list: Seq<Seq<char>>,
    pub cur: Seq<char>,
    pub depth: int,
    pub quoted: bool,
    pub failed: bool,
}

pub open spec fn scan_init() -> ScanState {
    ScanState { list: Seq::empty(), cur: Seq::empty(), depth: 0, quoted: false, failed: false }
}

/// One character of the splitter: brackets nest, double quotes toggle quoting
/// and are dropped, commas outside brackets and quotes end a piece, and a
/// closing bracket without an opening one fails.
pub open spec fn scan_step(st: ScanState, c: char) -> ScanState {
    if st.failed {
        st
    } else if c == '[' {
        ScanState { cur: st.cur.push(c), depth: st.depth + 1, ..st }
    } else if c == ']' {
        if st.depth - 1 < 0 {
            ScanState { failed: true, ..st }
        } else {
            ScanState { cur: st.cur.push(c), depth: st.depth - 1, ..st }
        }
    } else if c == '"' {
        ScanState { quoted: !st.quoted, ..st }
    } else if c == ',' {
        if st.depth > 0 || st.quoted {
            ScanState { cur: st.cur.push(c), ..st }
        } else {
            ScanState { list: st.list.push(st.cur), cur: Seq::empty(), ..st }
        }
    } else {
        ScanState { cur: st.cur.push(c), ..st }
    }
}

pub open spec fn scan(s: Seq<char>) -> ScanState
    decreases s.len(),
{
    if s.len() == 0 {
        scan_init()
    } else {
        scan_step(scan(s.drop_last()), s.last())
    }
}

/// The pieces of `s` (trimmed) between commas that stand outside brackets and
/// double quotes; `None` when brackets or quotes do not balance.
pub open spec fn split_commas_spec(s: Seq<char>) -> Option<Seq<Seq<char>>> {
    let st = scan(trim(s));
    if st.failed || st.depth != 0 || st.quoted {
        None
    } else {
        Some(st.list.push(st.cur))
    }
}

proof fn lemma_scan_failed(s: Seq<char>, i: int)
    requires
        0 <= i <= s.len(),
        scan(s.subrange(0, i)).failed,
    ensures
        scan(s).failed,
    decreases s.len() - i,
{
    if i < s.len() {
        assert(s.subrange(0, i + 1).drop_last() =~= s.subrange(0, i));
        lemma_scan_failed(s, i + 1);
    } else {
        assert(s.subrange(0, i) =~= s);
    }
}

/// Splits on top-level commas; `None` when brackets or quotes do not balance.
pub fn split_commas(s: &Vec<char>) -> (r: Option<Vec<Vec<char>>>)
    ensures
        match r {
            Some(v) => split_commas_spec(s@) == Some(views(v@)),
            None => split_commas_spec(s@) is None,
        },
{
    let t = trim_chars(s);
    let n = t.len();
    let mut list: Vec<Vec<char>> = Vec::new();
    let mut cur: Vec<char> = Vec::new();
    let mut depth: usize = 0;
    let mut quoted = false;
    let mut i: usize = 0;
    assert(t@.subrange(0, 0) =~= Seq::<char>::empty());
    assert(views(list@) =~= Seq::<Seq<char>>::empty());
    while i < n
        invariant
            n == t@.len(),
            t@ == trim(s@),
            i <= n,
            depth <= i,
            scan(t@.subrange(0, i as int)) == (ScanState {
                list: views(list@),
                cur: cur@,
                depth: depth as int,
                quoted,
                failed: false,
            }),
        decreases n - i,
    {
        let c = t[i];
        let ghost pre = t@.subrange(0, i as int);
        assert(t@.subrange(0, i as int + 1).drop_last() =~= pre);
        assert(t@.subrange(0, i as int + 1).last() == c);
        if c == '[' {
            cur.push(c);
            depth = depth + 1;
        } else if c == ']' {
            if depth == 0 {
                proof {
                    assert(scan(t@.subrange(0, i as int + 1)).failed);
                    lemma_scan_failed(t@, i as int + 1);
                    assert(t@.subrange(0, n as int) =~= t@);
                    assert(scan(t@).failed);
                    assert(t@ == trim(s@));
                    assert(split_commas_spec(s@) is None);
                }
                return None;
            }
            cur.push(c);
            depth = depth - 1;
        } else if c == '"' {
            quoted = !quoted;
        } else if c == ',' {
            if depth > 0 || quoted {
                cur.push(c);
            } else {
                let ghost old_list = views(list@);
                let ghost old_cur = cur@;
                list.push(cur);
                cur = Vec::new();
                assert(views(list@) =~= old_list.push(old_cur));
            }
        } else {
            cur.push(c);
        }
        i = i + 1;
    }
    assert(t@.subrange(0, n as int) =~= t@);
    if depth != 0 || quoted {
        return None;
    }
    let ghost old_list = views(list@);
    list.push(cur);
    assert(views(list@) =~= old_list.push(cur@));
    Some(list)
}

// ---------------------------------------------------------------------------
// The option table
// ---------------------------------------------------------------------------

/// One record of the option table.
pub struct OptEntry {
    name: Vec<char>,
    requires_value: bool,
    value: Option<Vec<char>>,
}

/// The mathematical counterpart of an option record.
pub struct EntryV {
    pub name: Seq<char>,
    pub requires_value: bool,
    pub value: Option<Seq<char>>,
}

pub open spec fn opt_view(o: Option<Vec<char>>) -> Option<Seq<char>> {
    match o {
        Some(v) => Some(v@),
        None => None,
    }
}

impl View for OptEntry {
    type V = EntryV;

    closed spec fn view(&self) -> EntryV {
        EntryV { name: self.name@, requires_value: self.requires_value, value: opt_view(self.value) }
    }
}

/// Parser of `key=value,key,...` option lists.
///
/// The table is a log of records: registering an option or setting its value
/// appends a record, and the latest record of a name is the one that counts.
pub struct OptionParser {
    entries: Vec<OptEntry>,
}

pub open spec fn entries_view(e: Seq<OptEntry>) -> Seq<EntryV> {
    Seq::new(e.len(), |i: int| e[i]@)
}

impl View for OptionParser {
    type V = Seq<EntryV>;

    closed spec fn view(&self) -> Seq<EntryV> {
        entries_view(self.entries@)
    }
}

/// The latest record of option `k`.
pub open spec fn lookup(e: Seq<EntryV>, k: Seq<char>) -> Option<EntryV>
    decreases e.len(),
{
    if e.len() == 0 {
        None
    } else if e.last().name == k {
        Some(e.last())
    } else {
        lookup(e.drop_last(), k)
    }
}

/// Registers option `k`, with no value yet.
pub open spec fn add_opt(e: Seq<EntryV>, k: Seq<char>, requires_value: bool) -> Seq<EntryV> {
    e.push(EntryV { name: k, requires_value, value: None })
}

/// The value of option `k`: `Some` once it was given (valueless options get
/// the empty value).
pub open spec fn opt_get(e: Seq<EntryV>, k: Seq<char>) -> Option<Seq<char>> {
    match lookup(e, k) {
        Some(en) => en.value,
        None => None,
    }
}

/// The value of option `k` when it was given and is not empty.
pub open spec fn raw(e: Seq<EntryV>, k: Seq<char>) -> Option<Seq<char>> {
    match opt_get(e, k) {
        Some(v) => if v.len() == 0 {
            None
        } else {
            Some(v)
        },
        None => None,
    }
}

pub open spec fn raw_or_empty(e: Seq<EntryV>, k: Seq<char>) -> Seq<char> {
    match raw(e, k) {
        Some(v) => v,
        None => Seq::empty(),
    }
}

/// The key of an option token: what comes before the first `=`.
pub open spec fn key_of(t: Seq<char>) -> Seq<char> {
    match index_of(t, '=') {
        Some(i) => t.subrange(0, i),
        None => t,
    }
}

/// Applies one option token to the table.
pub open spec fn parse_token(e: Seq<EntryV>, t: Seq<char>, subset: bool) -> Result<
    Seq<EntryV>,
    OptErr,
> {
    let k = key_of(t);
    match lookup(e, k) {
        None => if subset {
            Ok(e)
        } else {
            Err(OptErr::UnknownOption(k))
        },
        Some(en) => if en.requires_value {
            match index_of(t, '=') {
                Some(i) => Ok(
                    e.push(
                        EntryV {
                            name: k,
                            requires_value: true,
                            value: Some(trim(t.subrange(i + 1, t.len() as int))),
                        },
                    ),
                ),
                None => Err(OptErr::InvalidSyntax(t)),
            }
        } else {
            Ok(e.push(EntryV { name: k, requires_value: false, value: Some(Seq::empty()) }))
        },
    }
}

/// Applies the tokens in order; the first failing token decides the error.
pub open spec fn parse_tokens(e: Seq<EntryV>, toks: Seq<Seq<char>>, subset: bool) -> Result<
    Seq<EntryV>,
    OptErr,
>
    decreases toks.len(),
{
    if toks.len() == 0 {
        Ok(e)
    } else {
        match parse_token(e, toks[0], subset) {
            Ok(e2) => parse_tokens(e2, toks.drop_first(), subset),
            Err(er) => Err(er),
        }
    }
}

/// The table after parsing `s`. With `subset`, unknown options are ignored;
/// without it they are an error.
pub open spec fn parse_spec(e: Seq<EntryV>, s: Seq<char>, subset: bool) -> Result<
    Seq<EntryV>,
    OptErr,
> {
    if trim(s).len() == 0 {
        Ok(e)
    } else {
        match split_commas_spec(s) {
            None => Err(OptErr::InvalidSyntax(s)),
            Some(toks) => parse_tokens(e, toks, subset),
        }
    }
}

/// The table with options `names` registered in order.
pub open spec fn add_all_spec(e: Seq<EntryV>, names: Seq<Seq<char>>, requires_value: bool) -> Seq<
    EntryV,
>
    decreases names.len(),
{
    if names.len() == 0 {
        e
    } else {
        add_all_spec(add_opt(e, names[0], requires_value), names.drop_first(), requires_value)
    }
}

proof fn lemma_tokens_subset_agrees(e: Seq<EntryV>, toks: Seq<Seq<char>>)
    requires
        parse_tokens(e, toks, false) is Ok,
    ensures
        parse_tokens(e, toks, true) == parse_tokens(e, toks, false),
    decreases toks.len(),
{
    if toks.len() > 0 {
        let e2 = parse_token(e, toks[0], false)->Ok_0;
        lemma_tokens_subset_agrees(e2, toks.drop_first());
    }
}

/// A string that parses with every option known parses to the same table
/// when unknown options are allowed.
pub proof fn lemma_parse_subset_agrees(e: Seq<EntryV>, s: Seq<char>)
    requires
        parse_spec(e, s, false) is Ok,
    ensures
        parse_spec(e, s, true) == parse_spec(e, s, false),
{
    if trim(s).len() != 0 {
        lemma_tokens_subset_agrees(e, split_commas_spec(s)->Some_0);
    }
}

proof fn lemma_lookup_push_other(e: Seq<EntryV>, x: EntryV, k: Seq<char>)
    requires
        x.name != k,
    ensures
        lookup(e.push(x), k) == lookup(e, k),
{
    assert(e.push(x).drop_last() =~= e);
}

proof fn lemma_tokens_known(e: Seq<EntryV>, toks: Seq<Seq<char>>, k: Seq<char>)
    requires
        parse_tokens(e, toks, false) is Ok,
        lookup(e, k) is None,
    ensures
        forall|i: int| 0 <= i < toks.len() ==> key_of(#[trigger] toks[i]) != k,
    decreases toks.len(),
{
    if toks.len() > 0 {
        let t = toks[0];
        let e2 = parse_token(e, t, false)->Ok_0;
        assert(key_of(t) != k);
        let en = lookup(e, key_of(t))->Some_0;
        if en.requires_value {
            let i = index_of(t, '=')->Some_0;
            lemma_lookup_push_other(e, EntryV { name: key_of(t), requires_value: true, value: Some(trim(t.subrange(i + 1, t.len() as int))) }, k);
        } else {
            lemma_lookup_push_other(e, EntryV { name: key_of(t), requires_value: false, value: Some(Seq::empty()) }, k);
        }
        lemma_tokens_known(e2, toks.drop_first(), k);
        assert forall|i: int| 0 <= i < toks.len() implies key_of(#[trigger] toks[i]) != k by {
            if i > 0 {
                assert(toks[i] == toks.drop_first()[i - 1]);
            }
        }
    }
}

proof fn lemma_tokens_untouched(e: Seq<EntryV>, toks: Seq<Seq<char>>, subset: bool, k: Seq<char>)
    requires
        parse_tokens(e, toks, subset) is Ok,
        forall|i: int| 0 <= i < toks.len() ==> key_of(#[trigger] toks[i]) != k,
    ensures
        lookup(parse_tokens(e, toks, subset)->Ok_0, k) == lookup(e, k),
    decreases toks.len(),
{
    if toks.len() > 0 {
        let t = toks[0];
        assert(key_of(t) != k);
        let e2 = parse_token(e, t, subset)->Ok_0;
        match lookup(e, key_of(t)) {
            None => {},
            Some(en) => if en.requires_value {
                let i = index_of(t, '=')->Some_0;
                lemma_lookup_push_other(e, EntryV { name: key_of(t), requires_value: true, value: Some(trim(t.subrange(i + 1, t.len() as int))) }, k);
            } else {
                lemma_lookup_push_other(e, EntryV { name: key_of(t), requires_value: false, value: Some(Seq::empty()) }, k);
            },
        }
        assert forall|i: int| 0 <= i < toks.drop_first().len() implies key_of(#[trigger] toks.drop_first()[i]) != k by {
            assert(toks.drop_first()[i] == toks[i + 1]);
        }
        lemma_tokens_untouched(e2, toks.drop_first(), subset, k);
    }
}

/// An option that a strict parse of `s` under table `strict` does not know
/// is left as it was by a lenient parse of the same `s` under another table.
pub proof fn lemma_unknown_option_untouched(strict: Seq<EntryV>, lenient: Seq<EntryV>, s: Seq<char>, k: Seq<char>)
    requires
        parse_spec(strict, s, false) is Ok,
        lookup(strict, k) is None,
        parse_spec(lenient, s, true) is Ok,
    ensures
        lookup(parse_spec(lenient, s, true)->Ok_0, k) == lookup(lenient, k),
{
    if trim(s).len() != 0 {
        let toks = split_commas_spec(s)->Some_0;
        lemma_tokens_known(strict, toks, k);
        lemma_tokens_untouched(lenient, toks, true, k);
    }
}

proof fn lemma_tokens_push(e: Seq<EntryV>, toks: Seq<Seq<char>>, t: Seq<char>, subset: bool)
    ensures
        parse_tokens(e, toks.push(t), subset) == match parse_tokens(e, toks, subset) {
            Ok(e2) => parse_token(e2, t, subset),
            Err(x) => Err(x),
        },
    decreases toks.len(),
{
    let all = toks.push(t);
    if toks.len() == 0 {
        assert(all.drop_first() =~= Seq::<Seq<char>>::empty());
        assert(all[0] == t);
        assert(parse_tokens(e, toks, subset) == Ok::<Seq<EntryV>, OptErr>(e));
        match parse_token(e, t, subset) {
            Ok(e2) => {
                assert(parse_tokens(e2, all.drop_first(), subset) == Ok::<Seq<EntryV>, OptErr>(e2));
            },
            Err(_) => {},
        }
    } else {
        assert(all[0] == toks[0]);
        assert(all.drop_first() =~= toks.drop_first().push(t));
        match parse_token(e, toks[0], subset) {
            Ok(e2) => lemma_tokens_push(e2, toks.drop_first(), t, subset),
            Err(_) => {},
        }
    }
}

/// Index of the last token of `toks` whose key is `k`.
pub open spec fn last_key_index(toks: Seq<Seq<char>>, k: Seq<char>) -> Option<int>
    decreases toks.len(),
{
    if toks.len() == 0 {
        None
    } else if key_of(toks.last()) == k {
        Some(toks.len() - 1)
    } else {
        last_key_index(toks.drop_last(), k)
    }
}

proof fn lemma_last_key_index_range(toks: Seq<Seq<char>>, k: Seq<char>)
    ensures
        last_key_index(toks, k) matches Some(i) ==> 0 <= i < toks.len() && key_of(toks[i]) == k,
    decreases toks.len(),
{
    if toks.len() > 0 && key_of(toks.last()) != k {
        lemma_last_key_index_range(toks.drop_last(), k);
        if let Some(i) = last_key_index(toks.drop_last(), k) {
            assert(toks.drop_last()[i] == toks[i]);
        }
    }
}

/// The value a `key=value` token gives: what follows the first `=`, trimmed.
pub open spec fn token_value(t: Seq<char>) -> Seq<char> {
    trim(t.subrange(index_of(t, '=')->Some_0 + 1, t.len() as int))
}

/// After tokens are applied to a table that knows the value-taking option
/// `k`, its value is that of the last token naming `k`, or what it was when
/// no token names it.
pub proof fn lemma_tokens_last_value(e: Seq<EntryV>, toks: Seq<Seq<char>>, subset: bool, k: Seq<char>)
    requires
        parse_tokens(e, toks, subset) is Ok,
        lookup(e, k) matches Some(en) && en.requires_value,
    ensures
        lookup(parse_tokens(e, toks, subset)->Ok_0, k) matches Some(en) && en.requires_value,
        opt_get(parse_tokens(e, toks, subset)->Ok_0, k) == match last_key_index(toks, k) {
            Some(i) => Some(token_value(toks[i])),
            None => opt_get(e, k),
        },
    decreases toks.len(),
{
    if toks.len() > 0 {
        let d = toks.drop_last();
        let t = toks.last();
        assert(d.push(t) =~= toks);
        lemma_tokens_push(e, d, t, subset);
        if parse_tokens(e, d, subset) is Err {
            assert(false);
        }
        lemma_tokens_last_value(e, d, subset, k);
        let ed = parse_tokens(e, d, subset)->Ok_0;
        if key_of(t) == k {
            assert(toks[toks.len() - 1] == t);
            assert(last_key_index(toks, k) == Some(toks.len() - 1));
            let i = index_of(t, '=')->Some_0;
            let x = EntryV { name: k, requires_value: true, value: Some(trim(t.subrange(i + 1, t.len() as int))) };
            assert(parse_token(ed, t, subset) == Ok::<Seq<EntryV>, OptErr>(ed.push(x)));
            assert(ed.push(x).last() == x);
        } else {
            assert(last_key_index(toks, k) == last_key_index(d, k));
            lemma_last_key_index_range(d, k);
            if let Some(j) = last_key_index(d, k) {
                assert(toks[j] == d[j]);
            }
            match lookup(ed, key_of(t)) {
                None => {},
                Some(en) => if en.requires_value {
                    let i = index_of(t, '=')->Some_0;
                    lemma_lookup_push_other(ed, EntryV { name: key_of(t), requires_value: true, value: Some(trim(t.subrange(i + 1, t.len() as int))) }, k);
                } else {
                    lemma_lookup_push_other(ed, EntryV { name: key_of(t), requires_value: false, value: Some(Seq::empty()) }, k);
                },
            }
        }
    }
}

/// Parsing a non-blank option string into a table that knows the
/// value-taking option `k` gives `k` the value of the last piece naming it,
/// or leaves it as it was.
pub proof fn lemma_parse_last_value(e: Seq<EntryV>, s: Seq<char>, subset: bool, k: Seq<char>)
    requires
        parse_spec(e, s, subset) is Ok,
        trim(s).len() != 0,
        lookup(e, k) matches Some(en) && en.requires_value,
    ensures
        opt_get(parse_spec(e, s, subset)->Ok_0, k) == match last_key_index(split_commas_spec(s)->Some_0, k) {
            Some(i) => Some(token_value(split_commas_spec(s)->Some_0[i])),
            None => opt_get(e, k),
        },
{
    lemma_tokens_last_value(e, split_commas_spec(s)->Some_0, subset, k);
}

impl OptionParser {
    pub fn new() -> (r: Self)
        ensures
            r@ == Seq::<EntryV>::empty(),
    {
        let r = OptionParser { entries: Vec::new() };
        assert(r@ =~= Seq::<EntryV>::empty());
        r
    }

    fn push_entry(&mut self, en: OptEntry)
        ensures
            final(self)@ == old(self)@.push(en@),
    {
        let ghost old_v = self@;
        self.entries.push(en);
        assert(self@ =~= old_v.push(en@));
    }

    /// Registers an option that takes a value.
    pub fn add(&mut self, option: &str)
        ensures
            final(self)@ == add_opt(old(self)@, option@, true),
    {
        let name = chars_of(option);
        self.push_entry(OptEntry { name, requires_value: true, value: None });
    }

    /// Registers an option that takes no value.
    pub fn add_valueless(&mut self, option: &str)
        ensures
            final(self)@ == add_opt(old(self)@, option@, false),
    {
        let name = chars_of(option);
        self.push_entry(OptEntry { name, requires_value: false, value: None });
    }

    /// Index of the latest record of `k`.
    fn find(&self, k: &Vec<char>) -> (r: Option<usize>)
        ensures
            match r {
                Some(i) => i < self@.len() && lookup(self@, k@) == Some(self@[i as int]),
                None => lookup(self@, k@) is None,
            },
    {
        let mut i = self.entries.len();
        assert(self@.subrange(0, i as int) =~= self@);
        while i > 0
            invariant
                i <= self@.len(),
                self@.len() == self.entries@.len(),
                lookup(self@, k@) == lookup(self@.subrange(0, i as int), k@),
            decreases i,
        {
            let ghost pre = self@.subrange(0, i as int);
            assert(pre.drop_last() =~= self@.subrange(0, i - 1));
            assert(pre.last() == self@[i - 1]);
            if chars_eq(&self.entries[i - 1].name, k) {
                return Some(i - 1);
            }
            i = i - 1;
        }
        None
    }

    /// The value of an option, when it was given.
    pub fn get_chars(&self, k: &Vec<char>) -> (r: Option<Vec<char>>)
        ensures
            opt_view(r) == opt_get(self@, k@),
    {
        match self.find(k) {
            Some(i) => match &self.entries[i].value {
                Some(v) => Some(v.clone()),
                None => None,
            },
            None => None,
        }
    }

    /// The value of an option, when it was given.
    pub fn get(&self, option: &str) -> (r: Option<String>)
        ensures
            match r {
                Some(s) => opt_get(self@, option@) == Some(s@),
                None => opt_get(self@, option@) is None,
            },
    {
        let k = chars_of(option);
        match self.get_chars(&k) {
            Some(v) => Some(string_of(&v)),
            None => None,
        }
    }

    /// Whether an option was given.
    pub fn is_set(&self, option: &str) -> (r: bool)
        ensures
            r == (opt_get(self@, option@) is Some),
    {
        let k = chars_of(option);
        self.get_chars(&k).is_some()
    }

    /// The value of an option when it was given and is not empty.
    pub fn raw(&self, option: &str) -> (r: Option<Vec<char>>)
        ensures
            opt_view(r) == raw(self@, option@),
    {
        let k = chars_of(option);
        match self.get_chars(&k) {
            Some(v) => if v.len() == 0 {
                None
            } else {
                Some(v)
            },
            None => None,
        }
    }

    fn parse_one(&mut self, t: &Vec<char>, subset: bool) -> (r: Result<(), OptionParserError>)
        ensures
            match parse_token(old(self)@, t@, subset) {
                Ok(e) => r is Ok && final(self)@ == e,
                Err(er) => r matches Err(x) && x@ == er,
            },
    {
        let eq = find_char(t, '=');
        let key = match eq {
            Some(i) => slice_chars(t, 0, i),
            None => t.clone(),
        };
        assert(key@ == key_of(t@));
        match self.find(&key) {
            None => {
                if subset {
                    Ok(())
                } else {
                    Err(OptionParserError::UnknownOption(string_of(&key)))
                }
            },
            Some(idx) => {
                if self.entries[idx].requires_value {
                    match eq {
                        Some(i) => {
                            let tl = t.len();
                            assert(i < tl);
                            let v = slice_chars(t, i + 1, tl);
                            let tv = trim_chars(&v);
                            self.push_entry(
                                OptEntry { name: key, requires_value: true, value: Some(tv) },
                            );
                            Ok(())
                        },
                        None => Err(OptionParserError::InvalidSyntax(string_of(t))),
                    }
                } else {
                    let ghost kv = key@;
                    self.push_entry(
                        OptEntry { name: key, requires_value: false, value: Some(Vec::new()) },
                    );
                    assert(self@.last().value == Some(Seq::<char>::empty()));
                    Ok(())
                }
            },
        }
    }

    fn parse_impl(&mut self, input: &str, subset: bool) -> (r: Result<(), OptionParserError>)
        ensures
            match parse_spec(old(self)@, input@, subset) {
                Ok(e) => r is Ok && final(self)@ == e,
                Err(er) => r matches Err(x) && x@ == er,
            },
    {
        let s = chars_of(input);
        let t = trim_chars(&s);
        if t.len() == 0 {
            return Ok(());
        }
        let toks = match split_commas(&s) {
            Some(toks) => toks,
            None => {
                return Err(OptionParserError::InvalidSyntax(string_from(input)));
            },
        };
        let ghost all = views(toks@);
        let ghost e0 = self@;
        assert(parse_spec(e0, input@, subset) == parse_tokens(e0, all, subset));
        let mut i: usize = 0;
        assert(all.subrange(0, all.len() as int) =~= all);
        while i < toks.len()
            invariant
                i <= toks@.len(),
                all == views(toks@),
                e0 == old(self)@,
                parse_spec(e0, input@, subset) == parse_tokens(e0, all, subset),
                parse_tokens(e0, all, subset) == parse_tokens(
                    self@,
                    all.subrange(i as int, all.len() as int),
                    subset,
                ),
            decreases toks@.len() - i,
        {
            let ghost rest = all.subrange(i as int, all.len() as int);
            assert(rest[0] == toks@[i as int]@);
            assert(rest.drop_first() =~= all.subrange(i + 1, all.len() as int));
            let ghost pre_self = self@;
            let r = self.parse_one(&toks[i], subset);
            if r.is_err() {
                assert(parse_tokens(pre_self, rest, subset) == Err::<Seq<EntryV>, OptErr>(
                    r->Err_0@,
                ));
                return r;
            }
            i = i + 1;
        }
        assert(all.subrange(i as int, all.len() as int) =~= Seq::<Seq<char>>::empty());
        Ok(())
    }

    /// Parses `input`; every option in it must be registered.
    pub fn parse(&mut self, input: &str) -> (r: Result<(), OptionParserError>)
        ensures
            match parse_spec(old(self)@, input@, false) {
                Ok(e) => r is Ok && final(self)@ == e,
                Err(er) => r matches Err(x) && x@ == er,
            },
    {
        self.parse_impl(input, false)
    }

    /// Parses `input`, ignoring the options that are not registered.
    pub fn parse_subset(&mut self, input: &str) -> (r: Result<(), OptionParserError>)
        ensures
            match parse_spec(old(self)@, input@, true) {
                Ok(e) => r is Ok && final(self)@ == e,
                Err(er) => r matches Err(x) && x@ == er,
            },
    {
        self.parse_impl(input, true)
    }
}

} // verus!
