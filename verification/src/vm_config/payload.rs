//! What the guest boots: firmware or kernel, and the fw_cfg device.
use vstd::prelude::*;

use crate::api::vm_migration::string_opt_view;
use crate::error::{Error, ErrorSpec, or_default, rview};
use crate::option_parser::{add_opt, opt_get, parse_spec, EntryV, OptErr, OptionParser, OptionParserError};
use crate::text::{chars_of, split, split_chars, string_from, string_of, trim, trim_chars, views};
use crate::values::{conv_toggle, conversion_error, given_off};

verus! {

/// One fw_cfg item: a name and its content, from a file or a string.
#[derive(Clone, Debug, PartialEq, Eq)]
pub struct FwCfgItem {
    pub name: String,
    pub file: Option<String>,
    pub string: Option<String>,
}

pub struct FwCfgItemSpec {
    pub name: Seq<char>,
    pub file: Option<Seq<char>>,
    pub string: Option<Seq<char>>,
}

impl View for FwCfgItem {
    type V = FwCfgItemSpec;

    open spec fn view(&self) -> FwCfgItemSpec {
        FwCfgItemSpec { name: self.name@, file: string_opt_view(self.file), string: string_opt_view(self.string) }
    }
}

pub open spec fn item_options() -> Seq<EntryV> {
    add_opt(add_opt(add_opt(Seq::empty(), "name"@, true), "file"@, true), "string"@, true)
}

/// The item that `s` describes: `name` is required.
pub open spec fn item_spec(s: Seq<char>) -> Result<FwCfgItemSpec, ErrorSpec> {
    match parse_spec(item_options(), s, false) {
        Err(e) => Err(ErrorSpec::ParseFwCfgItem(e)),
        Ok(e) => match opt_get(e, "name"@) {
            None => Err(ErrorSpec::ParseFwCfgItem(OptErr::InvalidValue("missing FwCfgItem name"@))),
            Some(name) => Ok(FwCfgItemSpec { name, file: opt_get(e, "file"@), string: opt_get(e, "string"@) }),
        },
    }
}

impl FwCfgItem {
    pub fn parse(fw_cfg: &str) -> (r: Result<Self, Error>)
        ensures
            rview(r) == item_spec(fw_cfg@),
    {
        let mut parser = OptionParser::new();
        parser.add("name");
        parser.add("file");
        parser.add("string");
        if let Err(e) = parser.parse(fw_cfg) {
            return Err(Error::ParseFwCfgItem(e));
        }
        let name = match parser.get("name") {
            Some(n) => n,
            None => return Err(Error::ParseFwCfgItem(
                OptionParserError::InvalidValue(string_from("missing FwCfgItem name")),
            )),
        };
        let file = parser.get("file");
        let string = parser.get("string");
        Ok(FwCfgItem { name, file, string })
    }
}

/// The items of the fw_cfg device.
#[derive(Clone, Debug, PartialEq, Eq)]
pub struct FwCfgItemList {
    pub item_list: Vec<FwCfgItem>,
}

pub open spec fn item_views(v: Seq<FwCfgItem>) -> Seq<FwCfgItemSpec> {
    Seq::new(v.len(), |i: int| v[i]@)
}

impl View for FwCfgItemList {
    type V = Seq<FwCfgItemSpec>;

    open spec fn view(&self) -> Seq<FwCfgItemSpec> {
        item_views(self.item_list@)
    }
}

/// Why a list of fw_cfg items does not parse; the field is the text at fault.
#[derive(Debug, PartialEq, Eq)]
pub enum FwCfgItemError {
    InvalidValue(String),
}

/// The items `pieces`, in order; the first piece that is no item is the error.
pub open spec fn items_spec(pieces: Seq<Seq<char>>) -> Result<Seq<FwCfgItemSpec>, Seq<char>>
    decreases pieces.len(),
{
    if pieces.len() == 0 {
        Ok(Seq::empty())
    } else {
        match items_spec(pieces.drop_last()) {
            Err(x) => Err(x),
            Ok(l) => match item_spec(pieces.last()) {
                Err(_) => Err(pieces.last()),
                Ok(it) => Ok(l.push(it)),
            },
        }
    }
}

/// The text between the brackets of `[..]`, once `s` is trimmed.
pub open spec fn bracket_body(s: Seq<char>) -> Option<Seq<char>> {
    let t = trim(s);
    if t.len() >= 2 && t[0] == '[' && t.last() == ']' {
        Some(t.subrange(1, t.len() - 1))
    } else {
        None
    }
}

/// The list `[item:item:..]` that `s` gives; an error holds the text at fault.
pub open spec fn item_list_spec(s: Seq<char>) -> Result<Seq<FwCfgItemSpec>, Seq<char>> {
    match bracket_body(s) {
        None => Err(s),
        Some(body) => items_spec(split(body, ':')),
    }
}

proof fn lemma_items_err(p: Seq<Seq<char>>, i: int)
    requires
        0 <= i <= p.len(),
        items_spec(p.subrange(0, i)) is Err,
    ensures
        items_spec(p) == items_spec(p.subrange(0, i)),
    decreases p.len() - i,
{
    if i < p.len() {
        assert(p.subrange(0, i + 1).drop_last() =~= p.subrange(0, i));
        lemma_items_err(p, i + 1);
    } else {
        assert(p.subrange(0, i) =~= p);
    }
}

impl FwCfgItemList {
    pub fn from_str(s: &str) -> (r: Result<Self, FwCfgItemError>)
        ensures
            match item_list_spec(s@) {
                Ok(l) => r matches Ok(x) && x@ == l,
                Err(t) => r matches Err(FwCfgItemError::InvalidValue(x)) && x@ == t,
            },
    {
        let v = chars_of(s);
        let t = trim_chars(&v);
        let n = t.len();
        if !(n >= 2 && t[0] == '[' && t[n - 1] == ']') {
            return Err(FwCfgItemError::InvalidValue(string_from(s)));
        }
        let body = crate::text::slice_chars(&t, 1, n - 1);
        assert(bracket_body(s@) == Some(body@));
        let pieces = split_chars(&body, ':');
        let ghost p = views(pieces@);
        let mut items: Vec<FwCfgItem> = Vec::new();
        let mut i: usize = 0;
        assert(p.subrange(0, 0) =~= Seq::<Seq<char>>::empty());
        assert(item_views(items@) =~= Seq::<FwCfgItemSpec>::empty());
        while i < pieces.len()
            invariant
                i <= pieces@.len(),
                p == views(pieces@),
                p == split(body@, ':'),
                bracket_body(s@) == Some(body@),
                items_spec(p.subrange(0, i as int)) == Ok::<Seq<FwCfgItemSpec>, Seq<char>>(item_views(items@)),
            decreases pieces@.len() - i,
        {
            assert(p.subrange(0, i as int + 1).drop_last() =~= p.subrange(0, i as int));
            assert(p.subrange(0, i as int + 1).last() == pieces@[i as int]@);
            let piece = string_of(&pieces[i]);
            match FwCfgItem::parse(piece.as_str()) {
                Ok(it) => {
                    let ghost old_items = item_views(items@);
                    items.push(it);
                    assert(item_views(items@) =~= old_items.push(it@));
                },
                Err(_) => {
                    proof {
                        assert(items_spec(p.subrange(0, i as int + 1)) == Err::<Seq<FwCfgItemSpec>, Seq<char>>(piece@));
                        lemma_items_err(p, i as int + 1);
                    }
                    return Err(FwCfgItemError::InvalidValue(piece));
                },
            }
            i = i + 1;
        }
        assert(p.subrange(0, p.len() as int) =~= p);
        Ok(FwCfgItemList { item_list: items })
    }
}

/// The fw_cfg device: which boot parameters it passes, and extra items.
#[derive(Clone, Debug, PartialEq, Eq)]
pub struct FwCfgConfig {
    pub e820: bool,
    pub kernel: bool,
    pub cmdline: bool,
    pub initramfs: bool,
    pub acpi_tables: bool,
    pub items: Option<FwCfgItemList>,
}

pub struct FwCfgConfigSpec {
    pub e820: bool,
    pub kernel: bool,
    pub cmdline: bool,
    pub initramfs: bool,
    pub acpi_tables: bool,
    pub items: Option<Seq<FwCfgItemSpec>>,
}

impl View for FwCfgConfig {
    type V = FwCfgConfigSpec;

    open spec fn view(&self) -> FwCfgConfigSpec {
        FwCfgConfigSpec {
            e820: self.e820,
            kernel: self.kernel,
            cmdline: self.cmdline,
            initramfs: self.initramfs,
            acpi_tables: self.acpi_tables,
            items: match self.items {
                Some(l) => Some(l@),
                None => None,
            },
        }
    }
}

pub open spec fn fw_cfg_options() -> Seq<EntryV> {
    let e = add_opt(add_opt(add_opt(Seq::empty(), "e820"@, true), "kernel"@, true), "cmdline"@, true);
    add_opt(add_opt(add_opt(e, "initramfs"@, true), "acpi_table"@, true), "items"@, true)
}

/// The five toggles of `e`, each on unless given otherwise.
pub open spec fn fw_cfg_toggles(e: Seq<EntryV>) -> Result<(bool, bool, bool, bool, bool), OptErr> {
    match conv_toggle(e, "e820"@) {
        Err(x) => Err(x),
        Ok(e820) => match conv_toggle(e, "kernel"@) {
            Err(x) => Err(x),
            Ok(kernel) => match conv_toggle(e, "cmdline"@) {
                Err(x) => Err(x),
                Ok(cmdline) => match conv_toggle(e, "initramfs"@) {
                    Err(x) => Err(x),
                    Ok(initramfs) => match conv_toggle(e, "acpi_table"@) {
                        Err(x) => Err(x),
                        Ok(acpi) => Ok((
                            or_default(e820, true),
                            or_default(kernel, true),
                            or_default(cmdline, true),
                            or_default(initramfs, true),
                            or_default(acpi, true),
                        )),
                    },
                },
            },
        },
    }
}

/// Inputs on which parsing gives up: `items` is given with an empty value.
pub open spec fn fw_cfg_items_empty(s: Seq<char>) -> bool {
    match parse_spec(fw_cfg_options(), s, false) {
        Ok(e) => fw_cfg_toggles(e) is Ok && opt_get(e, "items"@) == Some(Seq::<char>::empty()),
        Err(_) => false,
    }
}

/// The device that `s` describes.
pub open spec fn fw_cfg_spec(s: Seq<char>) -> Result<FwCfgConfigSpec, ErrorSpec> {
    match parse_spec(fw_cfg_options(), s, false) {
        Err(x) => Err(ErrorSpec::ParseFwCfgItem(x)),
        Ok(e) => match fw_cfg_toggles(e) {
            Err(x) => Err(ErrorSpec::ParseFwCfgItem(x)),
            Ok((e820, kernel, cmdline, initramfs, acpi_tables)) => match opt_get(e, "items"@) {
                None => Ok(FwCfgConfigSpec { e820, kernel, cmdline, initramfs, acpi_tables, items: None }),
                Some(v) => match item_list_spec(v) {
                    Err(_) => Err(ErrorSpec::ParseFwCfgItem(OptErr::Conversion("items"@, v))),
                    Ok(l) => Ok(FwCfgConfigSpec { e820, kernel, cmdline, initramfs, acpi_tables, items: Some(l) }),
                },
            },
        },
    }
}

fn toggle_on(parser: &OptionParser, option: &str) -> (r: Result<bool, OptionParserError>)
    ensures
        match conv_toggle(parser@, option@) {
            Ok(b) => r == Ok::<bool, OptionParserError>(or_default(b, true)),
            Err(x) => r matches Err(y) && y@ == x,
        },
{
    match parser.convert_toggle(option) {
        Ok(Some(b)) => Ok(b),
        Ok(None) => Ok(true),
        Err(e) => Err(e),
    }
}

impl FwCfgConfig {
    /// Parses the device, or gives `None` on the inputs on which parsing
    /// gives up (an `items` option with an empty value).
    pub fn parse_checked(fw_cfg_config: &str) -> (r: Option<Result<Self, Error>>)
        ensures
            r is None <==> fw_cfg_items_empty(fw_cfg_config@),
            r matches Some(x) ==> rview(x) == fw_cfg_spec(fw_cfg_config@),
    {
        let mut parser = OptionParser::new();
        parser.add("e820");
        parser.add("kernel");
        parser.add("cmdline");
        parser.add("initramfs");
        parser.add("acpi_table");
        parser.add("items");
        if let Err(e) = parser.parse(fw_cfg_config) {
            return Some(Err(Error::ParseFwCfgItem(e)));
        }
        let e820 = match toggle_on(&parser, "e820") {
            Ok(b) => b,
            Err(e) => return Some(Err(Error::ParseFwCfgItem(e))),
        };
        let kernel = match toggle_on(&parser, "kernel") {
            Ok(b) => b,
            Err(e) => return Some(Err(Error::ParseFwCfgItem(e))),
        };
        let cmdline = match toggle_on(&parser, "cmdline") {
            Ok(b) => b,
            Err(e) => return Some(Err(Error::ParseFwCfgItem(e))),
        };
        let initramfs = match toggle_on(&parser, "initramfs") {
            Ok(b) => b,
            Err(e) => return Some(Err(Error::ParseFwCfgItem(e))),
        };
        let acpi_tables = match toggle_on(&parser, "acpi_table") {
            Ok(b) => b,
            Err(e) => return Some(Err(Error::ParseFwCfgItem(e))),
        };
        let items = match parser.get("items") {
            None => None,
            Some(v) => {
                if v.as_str().unicode_len() == 0 {
                    assert(v@ =~= Seq::<char>::empty());
                    return None;
                }
                match FwCfgItemList::from_str(v.as_str()) {
                    Ok(l) => Some(l),
                    Err(_) => {
                        let vc = chars_of(v.as_str());
                        return Some(Err(Error::ParseFwCfgItem(conversion_error("items", &vc))));
                    },
                }
            },
        };
        Some(Ok(FwCfgConfig { e820, kernel, cmdline, initramfs, acpi_tables, items }))
    }

    pub fn parse(fw_cfg_config: &str) -> (r: Result<Self, Error>)
        requires
            !fw_cfg_items_empty(fw_cfg_config@),
        ensures
            rview(r) == fw_cfg_spec(fw_cfg_config@),
    {
        match Self::parse_checked(fw_cfg_config) {
            Some(r) => r,
            None => {
                assert(false);
                Err(Error::ParseFwCfgItem(OptionParserError::InvalidSyntax(String::new())))
            },
        }
    }
}

impl Default for FwCfgConfig {
    fn default() -> (r: Self)
        ensures
            r@ == (FwCfgConfigSpec { e820: true, kernel: true, cmdline: true, initramfs: true, acpi_tables: true, items: None }),
    {
        FwCfgConfig { e820: true, kernel: true, cmdline: true, initramfs: true, acpi_tables: true, items: None }
    }
}


/// Why a payload cannot be booted.
#[derive(Debug, PartialEq, Eq)]
pub enum PayloadConfigError {
    /// Specifying a kernel is not supported when a firmware is provided.
    FirmwarePlusOtherPayloads,
    /// No boot item: neither firmware nor kernel.
    MissingBootitem,
    /// fw_cfg passes the kernel, and there is none.
    FwCfgMissingKernel,
    /// fw_cfg passes the command line, and there is none.
    FwCfgMissingCmdline,
    /// fw_cfg passes the initramfs, and there is none.
    FwCfgMissingInitramfs,
    /// The item (its name) has both or neither of a file and a string.
    FwCfgInvalidItem(String),
}

pub enum PayloadConfigErrorSpec {
    FirmwarePlusOtherPayloads,
    MissingBootitem,
    FwCfgMissingKernel,
    FwCfgMissingCmdline,
    FwCfgMissingInitramfs,
    FwCfgInvalidItem(Seq<char>),
}

impl View for PayloadConfigError {
    type V = PayloadConfigErrorSpec;

    open spec fn view(&self) -> PayloadConfigErrorSpec {
        match self {
            PayloadConfigError::FirmwarePlusOtherPayloads => PayloadConfigErrorSpec::FirmwarePlusOtherPayloads,
            PayloadConfigError::MissingBootitem => PayloadConfigErrorSpec::MissingBootitem,
            PayloadConfigError::FwCfgMissingKernel => PayloadConfigErrorSpec::FwCfgMissingKernel,
            PayloadConfigError::FwCfgMissingCmdline => PayloadConfigErrorSpec::FwCfgMissingCmdline,
            PayloadConfigError::FwCfgMissingInitramfs => PayloadConfigErrorSpec::FwCfgMissingInitramfs,
            PayloadConfigError::FwCfgInvalidItem(n) => PayloadConfigErrorSpec::FwCfgInvalidItem(n@),
        }
    }
}

/// What the guest boots.
#[derive(Clone, Debug, PartialEq, Eq)]
pub struct PayloadConfig {
    pub firmware: Option<String>,
    pub kernel: Option<String>,
    pub cmdline: Option<String>,
    pub initramfs: Option<String>,
    pub fw_cfg_config: Option<FwCfgConfig>,
}

pub struct PayloadConfigSpec {
    pub firmware: Option<Seq<char>>,
    pub kernel: Option<Seq<char>>,
    pub cmdline: Option<Seq<char>>,
    pub initramfs: Option<Seq<char>>,
    pub fw_cfg_config: Option<FwCfgConfigSpec>,
}

impl View for PayloadConfig {
    type V = PayloadConfigSpec;

    open spec fn view(&self) -> PayloadConfigSpec {
        PayloadConfigSpec {
            firmware: string_opt_view(self.firmware),
            kernel: string_opt_view(self.kernel),
            cmdline: string_opt_view(self.cmdline),
            initramfs: string_opt_view(self.initramfs),
            fw_cfg_config: match self.fw_cfg_config {
                Some(f) => Some(f@),
                None => None,
            },
        }
    }
}

/// The name of the first item that has both or neither of a file and a string.
pub open spec fn first_invalid_item(items: Seq<FwCfgItemSpec>) -> Option<Seq<char>>
    decreases items.len(),
{
    if items.len() == 0 {
        None
    } else if (items[0].file is Some) == (items[0].string is Some) {
        Some(items[0].name)
    } else {
        first_invalid_item(items.drop_first())
    }
}

/// The verdict on fw_cfg `f` for the payload `p`: what it passes must exist,
/// and each item needs exactly one of a file and a string.
pub open spec fn fw_cfg_verdict(f: FwCfgConfigSpec, p: PayloadConfigSpec) -> Result<(), PayloadConfigErrorSpec> {
    if f.kernel && p.kernel is None {
        Err(PayloadConfigErrorSpec::FwCfgMissingKernel)
    } else if f.cmdline && p.cmdline is None {
        Err(PayloadConfigErrorSpec::FwCfgMissingCmdline)
    } else if f.initramfs && p.initramfs is None {
        Err(PayloadConfigErrorSpec::FwCfgMissingInitramfs)
    } else {
        match f.items {
            Some(items) => match first_invalid_item(items) {
                Some(n) => Err(PayloadConfigErrorSpec::FwCfgInvalidItem(n)),
                None => Ok(()),
            },
            None => Ok(()),
        }
    }
}

/// The payload after validation: a firmware alone drops the command line and
/// the initramfs.
pub open spec fn payload_cleared(p: PayloadConfigSpec) -> PayloadConfigSpec {
    if p.firmware is Some && p.kernel is None {
        PayloadConfigSpec { cmdline: None, initramfs: None, ..p }
    } else {
        p
    }
}

/// The verdict on payload `p`: exactly one of firmware and kernel, then the
/// fw_cfg device against the payload that remains.
pub open spec fn payload_verdict(p: PayloadConfigSpec) -> Result<(), PayloadConfigErrorSpec> {
    if p.firmware is Some && p.kernel is Some {
        Err(PayloadConfigErrorSpec::FirmwarePlusOtherPayloads)
    } else if p.firmware is None && p.kernel is None {
        Err(PayloadConfigErrorSpec::MissingBootitem)
    } else {
        let q = payload_cleared(p);
        match q.fw_cfg_config {
            Some(f) => fw_cfg_verdict(f, q),
            None => Ok(()),
        }
    }
}

pub open spec fn payload_rview(r: Result<(), PayloadConfigError>) -> Result<(), PayloadConfigErrorSpec> {
    match r {
        Ok(()) => Ok(()),
        Err(e) => Err(e@),
    }
}

fn find_invalid_item(items: &FwCfgItemList) -> (r: Option<String>)
    ensures
        match first_invalid_item(items@) {
            Some(n) => r matches Some(x) && x@ == n,
            None => r is None,
        },
{
    let ghost all = items@;
    let mut i: usize = 0;
    assert(all.subrange(0, all.len() as int) =~= all);
    while i < items.item_list.len()
        invariant
            all == items@,
            i <= all.len(),
            all.len() == items.item_list@.len(),
            first_invalid_item(all) == first_invalid_item(all.subrange(i as int, all.len() as int)),
        decreases all.len() - i,
    {
        let it = &items.item_list[i];
        let ghost rest = all.subrange(i as int, all.len() as int);
        assert(rest[0] == it@);
        assert(rest.drop_first() =~= all.subrange(i as int + 1, all.len() as int));
        if it.file.is_some() == it.string.is_some() {
            return Some(string_from(it.name.as_str()));
        }
        i = i + 1;
    }
    assert(all.subrange(all.len() as int, all.len() as int) =~= Seq::<FwCfgItemSpec>::empty());
    None
}

impl FwCfgConfig {
    /// Checks the device against the payload it boots.
    pub fn validate(&self, payload: &PayloadConfig) -> (r: Result<(), PayloadConfigError>)
        ensures
            payload_rview(r) == fw_cfg_verdict(self@, payload@),
    {
        if self.kernel && payload.kernel.is_none() {
            return Err(PayloadConfigError::FwCfgMissingKernel);
        }
        if self.cmdline && payload.cmdline.is_none() {
            return Err(PayloadConfigError::FwCfgMissingCmdline);
        }
        if self.initramfs && payload.initramfs.is_none() {
            return Err(PayloadConfigError::FwCfgMissingInitramfs);
        }
        if let Some(items) = &self.items {
            if let Some(n) = find_invalid_item(items) {
                return Err(PayloadConfigError::FwCfgInvalidItem(n));
            }
        }
        Ok(())
    }
}

impl PayloadConfig {
    /// Checks that the payload can be booted: exactly one of firmware and
    /// kernel. With a firmware, the command line and the initramfs are
    /// dropped; then the fw_cfg device is checked against what remains.
    pub fn validate(&mut self) -> (r: Result<(), PayloadConfigError>)
        ensures
            payload_rview(r) == payload_verdict(old(self)@),
            final(self)@ == payload_cleared(old(self)@),
    {
        let firmware = self.firmware.is_some();
        let kernel = self.kernel.is_some();
        if firmware && kernel {
            return Err(PayloadConfigError::FirmwarePlusOtherPayloads);
        }
        if !firmware && !kernel {
            return Err(PayloadConfigError::MissingBootitem);
        }
        if firmware {
            self.cmdline = None;
            self.initramfs = None;
        }
        match &self.fw_cfg_config {
            Some(f) => f.validate(self),
            None => Ok(()),
        }
    }
}

/// A payload that passed validation boots exactly one of a firmware and a
/// kernel, and with a firmware it has neither command line nor initramfs.
pub proof fn lemma_validated_payload(p: PayloadConfigSpec)
    requires
        payload_verdict(p) is Ok,
    ensures
        (payload_cleared(p).firmware is Some) != (payload_cleared(p).kernel is Some),
        payload_cleared(p).firmware is Some ==> payload_cleared(p).cmdline is None && payload_cleared(p).initramfs is None,
{
}

/// Validating again changes nothing: the cleared payload is its own cleared
/// form, and it gets the same verdict as the payload it came from.
pub proof fn lemma_validate_idempotent(p: PayloadConfigSpec)
    ensures
        payload_cleared(payload_cleared(p)) == payload_cleared(p),
        payload_verdict(payload_cleared(p)) == payload_verdict(p),
{
}

/// A fw_cfg item string is accepted exactly when its options parse and it
/// names the item; the item then has that name and the file and string
/// given.
pub proof fn lemma_item_fields(s: Seq<char>)
    ensures
        item_spec(s) is Ok <==> (parse_spec(item_options(), s, false) matches Ok(e) && opt_get(e, "name"@) is Some),
        item_spec(s) is Ok ==> {
            let e = parse_spec(item_options(), s, false)->Ok_0;
            let i = item_spec(s)->Ok_0;
            &&& Some(i.name) == opt_get(e, "name"@)
            &&& i.file == opt_get(e, "file"@)
            &&& i.string == opt_get(e, "string"@)
        },
{
}

/// A parsed fw_cfg device passes each of the e820 table, kernel, command
/// line, initramfs and ACPI tables unless it is given as off, and has the
/// items of the list given, if any.
pub proof fn lemma_fw_cfg_fields(s: Seq<char>)
    ensures
        fw_cfg_spec(s) is Ok ==> {
            let e = parse_spec(fw_cfg_options(), s, false)->Ok_0;
            let c = fw_cfg_spec(s)->Ok_0;
            &&& c.e820 == !given_off(e, "e820"@)
            &&& c.kernel == !given_off(e, "kernel"@)
            &&& c.cmdline == !given_off(e, "cmdline"@)
            &&& c.initramfs == !given_off(e, "initramfs"@)
            &&& c.acpi_tables == !given_off(e, "acpi_table"@)
            &&& c.items == match opt_get(e, "items"@) {
                Some(v) => Some(item_list_spec(v)->Ok_0),
                None => None,
            }
        },
{
}

} // verus!
