//! Serial, virtio and debug consoles.
use vstd::prelude::*;

use crate::error::{Error, ErrorSpec, ValidationError, ValidationErrorSpec, rview};
use crate::option_parser::{
    add_opt, lemma_parse_subset_agrees, opt_get, parse_spec, EntryV, OptionParser, OptionParserError,
};
use crate::text::{chars_of, hex_uint_value, parse_hex, slice_chars, starts_with, starts_with_str, string_of};
use crate::vm_config::{
    add_pci_options, pci_common_spec, pci_options, str_opt_view, PciDeviceCommonConfig,
    PciDeviceCommonConfigSpec,
};

verus! {

/// Where a console's output goes.
#[derive(Clone, Copy, Debug, PartialEq, Eq)]
pub enum ConsoleOutputMode {
    Off,
    Pty,
    Tty,
    File,
    Socket,
    Null,
}

/// Common configuration for plain console configs.
///
/// Independent of PCI or legacy devices.
#[derive(Debug, PartialEq, Eq)]
pub struct CommonConsoleConfig {
    pub file: Option<String>,
    pub mode: ConsoleOutputMode,
    pub socket: Option<String>,
}

pub struct CommonConsoleConfigSpec {
    pub file: Option<Seq<char>>,
    pub mode: ConsoleOutputMode,
    pub socket: Option<Seq<char>>,
}

impl View for CommonConsoleConfig {
    type V = CommonConsoleConfigSpec;

    open spec fn view(&self) -> CommonConsoleConfigSpec {
        CommonConsoleConfigSpec {
            file: str_opt_view(self.file),
            mode: self.mode,
            socket: str_opt_view(self.socket),
        }
    }
}

/// The console modes: the valueless `off`, `pty`, `tty`, `null`, then `file`
/// and `socket` with a path.
pub open spec fn console_options(e: Seq<EntryV>) -> Seq<EntryV> {
    add_opt(
        add_opt(
            add_opt(
                add_opt(add_opt(add_opt(e, "off"@, false), "pty"@, false), "tty"@, false),
                "null"@,
                false,
            ),
            "file"@,
            true,
        ),
        "socket"@,
        true,
    )
}

fn add_console_options(parser: &mut OptionParser)
    ensures
        final(parser)@ == console_options(old(parser)@),
{
    parser.add_valueless("off");
    parser.add_valueless("pty");
    parser.add_valueless("tty");
    parser.add_valueless("null");
    parser.add("file");
    parser.add("socket");
}

/// The error of a console grammar failure: serial or virtio console.
pub open spec fn console_parse_error(serial: bool, er: crate::option_parser::OptErr) -> ErrorSpec {
    if serial {
        ErrorSpec::ParseSerial(er)
    } else {
        ErrorSpec::ParseConsole(er)
    }
}

fn console_error(serial: bool, e: OptionParserError) -> (r: Error)
    ensures
        r@ == console_parse_error(serial, e@),
{
    if serial {
        Error::ParseSerial(e)
    } else {
        Error::ParseConsole(e)
    }
}

/// The first mode that `s` names, in the order `off`, `pty`, `tty`, `null`,
/// `file`, `socket`; no mode is an error.
pub open spec fn common_console_spec(s: Seq<char>, serial: bool) -> Result<
    CommonConsoleConfigSpec,
    ErrorSpec,
> {
    match parse_spec(console_options(Seq::empty()), s, true) {
        Err(er) => Err(console_parse_error(serial, er)),
        Ok(e) => if opt_get(e, "off"@) is Some {
            Ok(CommonConsoleConfigSpec { file: None, mode: ConsoleOutputMode::Off, socket: None })
        } else if opt_get(e, "pty"@) is Some {
            Ok(CommonConsoleConfigSpec { file: None, mode: ConsoleOutputMode::Pty, socket: None })
        } else if opt_get(e, "tty"@) is Some {
            Ok(CommonConsoleConfigSpec { file: None, mode: ConsoleOutputMode::Tty, socket: None })
        } else if opt_get(e, "null"@) is Some {
            Ok(CommonConsoleConfigSpec { file: None, mode: ConsoleOutputMode::Null, socket: None })
        } else if opt_get(e, "file"@) is Some {
            Ok(
                CommonConsoleConfigSpec {
                    file: opt_get(e, "file"@),
                    mode: ConsoleOutputMode::File,
                    socket: None,
                },
            )
        } else if opt_get(e, "socket"@) is Some {
            Ok(
                CommonConsoleConfigSpec {
                    file: None,
                    mode: ConsoleOutputMode::Socket,
                    socket: opt_get(e, "socket"@),
                },
            )
        } else {
            Err(ErrorSpec::ParseConsoleInvalidModeGiven)
        },
    }
}

impl CommonConsoleConfig {
    fn parse(console: &str, serial: bool) -> (r: Result<Self, Error>)
        ensures
            rview(r) == common_console_spec(console@, serial),
    {
        let mut parser = OptionParser::new();
        add_console_options(&mut parser);
        if let Err(e) = parser.parse_subset(console) {
            return Err(console_error(serial, e));
        }
        let mut file: Option<String> = None;
        let mut socket: Option<String> = None;
        let mut mode = ConsoleOutputMode::Off;
        if parser.is_set("off") {
        } else if parser.is_set("pty") {
            mode = ConsoleOutputMode::Pty;
        } else if parser.is_set("tty") {
            mode = ConsoleOutputMode::Tty;
        } else if parser.is_set("null") {
            mode = ConsoleOutputMode::Null;
        } else if parser.is_set("file") {
            mode = ConsoleOutputMode::File;
            match parser.get("file") {
                Some(f) => file = Some(f),
                None => return Err(Error::Validation(ValidationError::ConsoleFileMissing)),
            }
        } else if parser.is_set("socket") {
            mode = ConsoleOutputMode::Socket;
            match parser.get("socket") {
                Some(f) => socket = Some(f),
                None => return Err(Error::Validation(ValidationError::ConsoleSocketPathMissing)),
            }
        } else {
            return Err(Error::ParseConsoleInvalidModeGiven);
        }
        Ok(Self { mode, file, socket })
    }
}

/// Configuration for a legacy serial console device.
#[derive(Debug, PartialEq, Eq)]
pub struct SerialConfig {
    pub common: CommonConsoleConfig,
}

pub struct SerialConfigSpec {
    pub common: CommonConsoleConfigSpec,
}

impl View for SerialConfig {
    type V = SerialConfigSpec;

    open spec fn view(&self) -> SerialConfigSpec {
        SerialConfigSpec { common: self.common@ }
    }
}

/// A serial console: exactly the console modes, with their syntax checked.
pub open spec fn serial_spec(s: Seq<char>) -> Result<SerialConfigSpec, ErrorSpec> {
    match parse_spec(console_options(Seq::empty()), s, false) {
        Err(er) => Err(ErrorSpec::ParseSerial(er)),
        Ok(_) => match common_console_spec(s, true) {
            Err(x) => Err(x),
            Ok(c) => Ok(SerialConfigSpec { common: c }),
        },
    }
}

/// The first console mode that table `e` has set, in the order `off`,
/// `pty`, `tty`, `null`, `file`, `socket`.
pub open spec fn first_console_mode(e: Seq<EntryV>) -> Option<ConsoleOutputMode> {
    if opt_get(e, "off"@) is Some {
        Some(ConsoleOutputMode::Off)
    } else if opt_get(e, "pty"@) is Some {
        Some(ConsoleOutputMode::Pty)
    } else if opt_get(e, "tty"@) is Some {
        Some(ConsoleOutputMode::Tty)
    } else if opt_get(e, "null"@) is Some {
        Some(ConsoleOutputMode::Null)
    } else if opt_get(e, "file"@) is Some {
        Some(ConsoleOutputMode::File)
    } else if opt_get(e, "socket"@) is Some {
        Some(ConsoleOutputMode::Socket)
    } else {
        None
    }
}

/// A serial console takes the first mode given, in the order `off`, `pty`,
/// `tty`, `null`, `file`, `socket`; it has a file exactly when that mode is
/// `file` and a socket exactly when it is `socket`, each the path given; a
/// description that names no mode is refused with
/// `ParseConsoleInvalidModeGiven`.
pub proof fn lemma_serial_modes(s: Seq<char>)
    requires
        parse_spec(console_options(Seq::empty()), s, false) is Ok,
    ensures
        ({
            let e = parse_spec(console_options(Seq::empty()), s, false)->Ok_0;
            match first_console_mode(e) {
                None => serial_spec(s) == Err::<SerialConfigSpec, ErrorSpec>(ErrorSpec::ParseConsoleInvalidModeGiven),
                Some(m) => {
                    &&& serial_spec(s) is Ok
                    &&& serial_spec(s)->Ok_0.common.mode == m
                    &&& serial_spec(s)->Ok_0.common.file == if m == ConsoleOutputMode::File {
                        opt_get(e, "file"@)
                    } else {
                        None
                    }
                    &&& serial_spec(s)->Ok_0.common.socket == if m == ConsoleOutputMode::Socket {
                        opt_get(e, "socket"@)
                    } else {
                        None
                    }
                    &&& (m == ConsoleOutputMode::File ==> opt_get(e, "file"@) is Some)
                    &&& (m == ConsoleOutputMode::Socket ==> opt_get(e, "socket"@) is Some)
                },
            }
        }),
{
    lemma_parse_subset_agrees(console_options(Seq::empty()), s);
}

impl SerialConfig {
    pub const SYNTAX: &'static str = "Control serial port: \"off|null|pty|tty|file=<path>|socket=<path>\"";

    pub fn parse(serial: &str) -> (r: Result<Self, Error>)
        ensures
            rview(r) == serial_spec(serial@),
    {
        let mut parser = OptionParser::new();
        add_console_options(&mut parser);
        if let Err(e) = parser.parse(serial) {
            return Err(Error::ParseSerial(e));
        }
        let common = CommonConsoleConfig::parse(serial, true)?;
        Ok(Self { common })
    }
}

impl Default for SerialConfig {
    fn default() -> (r: Self)
        ensures
            r@ == (SerialConfigSpec {
                common: CommonConsoleConfigSpec {
                    file: None,
                    mode: ConsoleOutputMode::Null,
                    socket: None,
                },
            }),
    {
        Self { common: CommonConsoleConfig { file: None, mode: ConsoleOutputMode::Null, socket: None } }
    }
}

/// Configuration for a virtio-console device.
#[derive(Debug, PartialEq, Eq)]
pub struct ConsoleConfig {
    pub common: CommonConsoleConfig,
    pub pci_common: PciDeviceCommonConfig,
}

pub struct ConsoleConfigSpec {
    pub common: CommonConsoleConfigSpec,
    pub pci_common: PciDeviceCommonConfigSpec,
}

impl View for ConsoleConfig {
    type V = ConsoleConfigSpec;

    open spec fn view(&self) -> ConsoleConfigSpec {
        ConsoleConfigSpec { common: self.common@, pci_common: self.pci_common@ }
    }
}

/// A virtio console: the console modes and the PCI settings.
pub open spec fn console_spec(s: Seq<char>) -> Result<ConsoleConfigSpec, ErrorSpec> {
    match parse_spec(pci_options(console_options(Seq::empty()), true), s, false) {
        Err(er) => Err(ErrorSpec::ParseConsole(er)),
        Ok(_) => match common_console_spec(s, false) {
            Err(x) => Err(x),
            Ok(c) => match pci_common_spec(s) {
                Err(x) => Err(x),
                Ok(p) => Ok(ConsoleConfigSpec { common: c, pci_common: p }),
            },
        },
    }
}

impl ConsoleConfig {
    pub const SYNTAX: &'static str = "Control (virtio) console: \"off|null|pty|tty|file=<path>,iommu=on|off,id=<device_id>,pci_segment=<segment_id>,pci_device_id=<pci_slot>\"";

    pub fn parse(console: &str) -> (r: Result<Self, Error>)
        ensures
            rview(r) == console_spec(console@),
    {
        let mut parser = OptionParser::new();
        add_console_options(&mut parser);
        add_pci_options(&mut parser, true);
        if let Err(e) = parser.parse(console) {
            return Err(Error::ParseConsole(e));
        }
        let common = CommonConsoleConfig::parse(console, false)?;
        let pci_common = PciDeviceCommonConfig::parse(console)?;
        Ok(Self { common, pci_common })
    }
}

impl Default for ConsoleConfig {
    fn default() -> (r: Self)
        ensures
            r@.common == (CommonConsoleConfigSpec {
                file: None,
                mode: ConsoleOutputMode::Tty,
                socket: None,
            }),
            r@.pci_common == (PciDeviceCommonConfigSpec {
                id: None,
                iommu: false,
                pci_segment: 0,
                pci_device_id: None,
            }),
    {
        Self {
            common: CommonConsoleConfig { file: None, mode: ConsoleOutputMode::Tty, socket: None },
            pci_common: PciDeviceCommonConfig {
                id: None,
                iommu: false,
                pci_segment: 0,
                pci_device_id: None,
            },
        }
    }
}

/// The default I/O port of the debug console.
pub const DEBUG_CONSOLE_DEFAULT_PORT: u16 = 0xe9;

/// The debug console (an I/O port).
#[derive(Debug, PartialEq, Eq)]
pub struct DebugConsoleConfig {
    pub file: Option<String>,
    pub mode: ConsoleOutputMode,
    /// Optionally dedicated I/O-port, if the default port should not be used.
    pub iobase: Option<u16>,
}

pub struct DebugConsoleConfigSpec {
    pub file: Option<Seq<char>>,
    pub mode: ConsoleOutputMode,
    pub iobase: Option<u16>,
}

impl View for DebugConsoleConfig {
    type V = DebugConsoleConfigSpec;

    open spec fn view(&self) -> DebugConsoleConfigSpec {
        DebugConsoleConfigSpec { file: str_opt_view(self.file), mode: self.mode, iobase: self.iobase }
    }
}

pub open spec fn debug_console_options() -> Seq<EntryV> {
    add_opt(
        add_opt(
            add_opt(
                add_opt(add_opt(add_opt(Seq::empty(), "off"@, false), "pty"@, false), "tty"@, false),
                "null"@,
                false,
            ),
            "file"@,
            true,
        ),
        "iobase"@,
        true,
    )
}

/// The I/O port that an `iobase` value gives: `0x` followed by a 16-bit
/// hexadecimal number; anything else is an error naming the value.
pub open spec fn iobase_spec(v: Seq<char>) -> Result<u16, ErrorSpec> {
    if !starts_with(v, "0x"@) {
        Err(ErrorSpec::Validation(ValidationErrorSpec::InvalidIoPortHex(v)))
    } else {
        match hex_uint_value(v.subrange(2, v.len() as int), u16::MAX as nat) {
            Some(x) => Ok(x as u16),
            None => Err(ErrorSpec::Validation(ValidationErrorSpec::InvalidIoPortHex(v))),
        }
    }
}

/// The debug console that `s` describes: the first of the modes `off`,
/// `pty`, `tty`, `null`, `file`, and an optional `iobase`.
pub open spec fn debug_console_spec(s: Seq<char>) -> Result<DebugConsoleConfigSpec, ErrorSpec> {
    match parse_spec(debug_console_options(), s, false) {
        Err(er) => Err(ErrorSpec::ParseConsole(er)),
        Ok(e) => {
            let mode = if opt_get(e, "off"@) is Some {
                Some(ConsoleOutputMode::Off)
            } else if opt_get(e, "pty"@) is Some {
                Some(ConsoleOutputMode::Pty)
            } else if opt_get(e, "tty"@) is Some {
                Some(ConsoleOutputMode::Tty)
            } else if opt_get(e, "null"@) is Some {
                Some(ConsoleOutputMode::Null)
            } else if opt_get(e, "file"@) is Some {
                Some(ConsoleOutputMode::File)
            } else {
                None
            };
            match mode {
                None => Err(ErrorSpec::ParseConsoleInvalidModeGiven),
                Some(m) => {
                    let file = if m == ConsoleOutputMode::File {
                        opt_get(e, "file"@)
                    } else {
                        None
                    };
                    match opt_get(e, "iobase"@) {
                        None => Ok(DebugConsoleConfigSpec { file, mode: m, iobase: None }),
                        Some(v) => match iobase_spec(v) {
                            Err(x) => Err(x),
                            Ok(port) => Ok(DebugConsoleConfigSpec { file, mode: m, iobase: Some(port) }),
                        },
                    }
                },
            }
        },
    }
}

/// `iobase` is read as `0x` followed by a hexadecimal number of at most 16
/// bits; any other value is refused with `InvalidIoPortHex` naming it, and a
/// debug console given no `iobase` has no port of its own.
pub proof fn lemma_debug_console_iobase(s: Seq<char>)
    requires
        parse_spec(debug_console_options(), s, false) is Ok,
        ({
            let e = parse_spec(debug_console_options(), s, false)->Ok_0;
            ||| opt_get(e, "off"@) is Some
            ||| opt_get(e, "pty"@) is Some
            ||| opt_get(e, "tty"@) is Some
            ||| opt_get(e, "null"@) is Some
            ||| opt_get(e, "file"@) is Some
        }),
    ensures
        ({
            let e = parse_spec(debug_console_options(), s, false)->Ok_0;
            match opt_get(e, "iobase"@) {
                None => debug_console_spec(s) is Ok && debug_console_spec(s)->Ok_0.iobase is None,
                Some(v) => {
                    let digits = v.subrange(2, v.len() as int);
                    if starts_with(v, "0x"@) && hex_uint_value(digits, 0xffff) is Some {
                        &&& debug_console_spec(s) is Ok
                        &&& debug_console_spec(s)->Ok_0.iobase == Some(hex_uint_value(digits, 0xffff)->Some_0 as u16)
                    } else {
                        debug_console_spec(s) == Err::<DebugConsoleConfigSpec, ErrorSpec>(
                            ErrorSpec::Validation(ValidationErrorSpec::InvalidIoPortHex(v)),
                        )
                    }
                },
            }
        }),
{
}

fn parse_iobase(v: String) -> (r: Result<u16, Error>)
    ensures
        rview(r) == iobase_spec(v@),
{
    let c = chars_of(v.as_str());
    if !starts_with_str(&c, "0x") {
        return Err(Error::Validation(ValidationError::InvalidIoPortHex(v)));
    }
    proof {
        reveal_strlit("0x");
    }
    let digits = slice_chars(&c, 2, c.len());
    match parse_hex(&digits, u16::MAX as u64) {
        Some(x) => Ok(x as u16),
        None => Err(Error::Validation(ValidationError::InvalidIoPortHex(v))),
    }
}

impl DebugConsoleConfig {
    pub fn parse(debug_console_ops: &str) -> (r: Result<Self, Error>)
        ensures
            rview(r) == debug_console_spec(debug_console_ops@),
    {
        let mut parser = OptionParser::new();
        parser.add_valueless("off");
        parser.add_valueless("pty");
        parser.add_valueless("tty");
        parser.add_valueless("null");
        parser.add("file");
        parser.add("iobase");
        if let Err(e) = parser.parse(debug_console_ops) {
            return Err(Error::ParseConsole(e));
        }
        let mut file: Option<String> = None;
        let mut mode = ConsoleOutputMode::Off;
        if parser.is_set("off") {
        } else if parser.is_set("pty") {
            mode = ConsoleOutputMode::Pty;
        } else if parser.is_set("tty") {
            mode = ConsoleOutputMode::Tty;
        } else if parser.is_set("null") {
            mode = ConsoleOutputMode::Null;
        } else if parser.is_set("file") {
            mode = ConsoleOutputMode::File;
            match parser.get("file") {
                Some(f) => file = Some(f),
                None => return Err(Error::Validation(ValidationError::ConsoleFileMissing)),
            }
        } else {
            return Err(Error::ParseConsoleInvalidModeGiven);
        }
        let mut iobase: Option<u16> = None;
        if parser.is_set("iobase") {
            if let Some(iobase_opt) = parser.get("iobase") {
                iobase = Some(parse_iobase(iobase_opt)?);
            }
        }
        Ok(Self { file, mode, iobase })
    }
}

impl Default for DebugConsoleConfig {
    fn default() -> (r: Self)
        ensures
            r@ == (DebugConsoleConfigSpec {
                file: None,
                mode: ConsoleOutputMode::Off,
                iobase: Some(DEBUG_CONSOLE_DEFAULT_PORT),
            }),
    {
        Self { file: None, mode: ConsoleOutputMode::Off, iobase: Some(DEBUG_CONSOLE_DEFAULT_PORT) }
    }
}

/// A virtio console takes the first mode given, in the order `off`, `pty`,
/// `tty`, `null`, `file`, `socket`, with the file or socket path given for
/// that mode and none otherwise; a description with valid options but no
/// mode is refused with `ParseConsoleInvalidModeGiven`; and it has the PCI
/// settings of the string.
pub proof fn lemma_console_modes(s: Seq<char>)
    requires
        parse_spec(pci_options(console_options(Seq::empty()), true), s, false) is Ok,
        parse_spec(console_options(Seq::empty()), s, true) is Ok,
    ensures
        ({
            let e = parse_spec(console_options(Seq::empty()), s, true)->Ok_0;
            match first_console_mode(e) {
                None => console_spec(s) == Err::<ConsoleConfigSpec, ErrorSpec>(ErrorSpec::ParseConsoleInvalidModeGiven),
                Some(m) => pci_common_spec(s) is Ok ==> {
                    &&& console_spec(s) is Ok
                    &&& console_spec(s)->Ok_0.common.mode == m
                    &&& console_spec(s)->Ok_0.common.file == if m == ConsoleOutputMode::File {
                        opt_get(e, "file"@)
                    } else {
                        None
                    }
                    &&& console_spec(s)->Ok_0.common.socket == if m == ConsoleOutputMode::Socket {
                        opt_get(e, "socket"@)
                    } else {
                        None
                    }
                    &&& console_spec(s)->Ok_0.pci_common == pci_common_spec(s)->Ok_0
                },
            }
        }),
{
}

/// A debug console takes the first mode given, in the order `off`, `pty`,
/// `tty`, `null`, `file`, with the file given when that mode is `file` and
/// none otherwise; a description with valid options but no mode is refused
/// with `ParseConsoleInvalidModeGiven`.
pub proof fn lemma_debug_console_modes(s: Seq<char>)
    requires
        parse_spec(debug_console_options(), s, false) is Ok,
    ensures
        ({
            let e = parse_spec(debug_console_options(), s, false)->Ok_0;
            let m = if opt_get(e, "off"@) is Some {
                Some(ConsoleOutputMode::Off)
            } else if opt_get(e, "pty"@) is Some {
                Some(ConsoleOutputMode::Pty)
            } else if opt_get(e, "tty"@) is Some {
                Some(ConsoleOutputMode::Tty)
            } else if opt_get(e, "null"@) is Some {
                Some(ConsoleOutputMode::Null)
            } else if opt_get(e, "file"@) is Some {
                Some(ConsoleOutputMode::File)
            } else {
                None
            };
            &&& m is None ==> debug_console_spec(s) == Err::<DebugConsoleConfigSpec, ErrorSpec>(
                ErrorSpec::ParseConsoleInvalidModeGiven,
            )
            &&& debug_console_spec(s) is Ok ==> {
                &&& Some(debug_console_spec(s)->Ok_0.mode) == m
                &&& debug_console_spec(s)->Ok_0.file == if m == Some(ConsoleOutputMode::File) {
                    opt_get(e, "file"@)
                } else {
                    None
                }
            }
        }),
{
}

} // verus!
