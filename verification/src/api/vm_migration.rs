//! Parameters of outgoing and incoming migrations, as the API receives them.
use vstd::prelude::*;

use crate::option_parser::{add_opt, opt_get, parse_spec, raw, raw_or_empty, EntryV, OptErr, OptionParser, OptionParserError};
use crate::text::{chars_of, concat_str, eq_ignore_case, eq_ignore_case_str, string_from};
use crate::values::{conv_toggle, conv_u32, conv_u64, conversion_error, lift, toggle_value, u32_value, u64_value};

verus! {

/// How guest memory moves during a migration.
#[derive(Clone, Copy, Debug, Default, PartialEq, Eq, Structural)]
pub enum MigrationMode {
    /// All guest memory is sent before the destination resumes.
    #[default]
    Precopy,
    /// The destination resumes first and faults guest pages in on demand.
    Postcopy,
}

/// `precopy` or `postcopy`, in any ASCII case.
pub open spec fn migration_mode_value(s: Seq<char>) -> Option<MigrationMode> {
    if eq_ignore_case(s, "precopy"@) {
        Some(MigrationMode::Precopy)
    } else if eq_ignore_case(s, "postcopy"@) {
        Some(MigrationMode::Postcopy)
    } else {
        None
    }
}

fn migration_mode_of(v: &Vec<char>) -> (r: Option<MigrationMode>)
    ensures
        r == migration_mode_value(v@),
{
    if eq_ignore_case_str(v, "precopy") {
        Some(MigrationMode::Precopy)
    } else if eq_ignore_case_str(v, "postcopy") {
        Some(MigrationMode::Postcopy)
    } else {
        None
    }
}

impl MigrationMode {
    pub fn from_str(s: &str) -> (r: Result<Self, String>)
        ensures
            match migration_mode_value(s@) {
                Some(m) => r == Ok::<MigrationMode, String>(m),
                None => r matches Err(msg) && msg@ == "Invalid migration mode: "@ + s@,
            },
    {
        let v = chars_of(s);
        match migration_mode_of(&v) {
            Some(m) => Ok(m),
            None => Err(concat_str("Invalid migration mode: ", s)),
        }
    }
}

/// What a migration does when it cannot reach its downtime within its timeout.
#[derive(Clone, Copy, Debug, Default, PartialEq, Eq, Structural)]
pub enum TimeoutStrategy {
    /// Cancel the migration; the VM keeps running on the source.
    #[default]
    Cancel,
    /// Ignore the timeout and migrate anyway.
    Ignore,
}

/// `cancel` or `ignore`, in any ASCII case.
pub open spec fn timeout_strategy_value(s: Seq<char>) -> Option<TimeoutStrategy> {
    if eq_ignore_case(s, "cancel"@) {
        Some(TimeoutStrategy::Cancel)
    } else if eq_ignore_case(s, "ignore"@) {
        Some(TimeoutStrategy::Ignore)
    } else {
        None
    }
}

fn timeout_strategy_of(v: &Vec<char>) -> (r: Option<TimeoutStrategy>)
    ensures
        r == timeout_strategy_value(v@),
{
    if eq_ignore_case_str(v, "cancel") {
        Some(TimeoutStrategy::Cancel)
    } else if eq_ignore_case_str(v, "ignore") {
        Some(TimeoutStrategy::Ignore)
    } else {
        None
    }
}

impl TimeoutStrategy {
    pub fn from_str(s: &str) -> (r: Result<Self, String>)
        ensures
            match timeout_strategy_value(s@) {
                Some(t) => r == Ok::<TimeoutStrategy, String>(t),
                None => r matches Err(msg) && msg@ == "Invalid timeout strategy: "@ + s@,
            },
    {
        let v = chars_of(s);
        match timeout_strategy_of(&v) {
            Some(t) => Ok(t),
            None => Err(concat_str("Invalid timeout strategy: ", s)),
        }
    }
}

/// Parameters of an incoming migration.
#[derive(Clone, Debug, Default, PartialEq, Eq)]
pub struct VmReceiveMigrationData {
    /// Where the migration state is received.
    pub receiver_url: String,
    /// Directory of the TLS server certificate, key and root CA certificate;
    /// when given, the migration uses mTLS.
    pub tls_dir: Option<String>,
    pub memory_mode: MigrationMode,
}

pub struct VmReceiveMigrationDataSpec {
    pub receiver_url: Seq<char>,
    pub tls_dir: Option<Seq<char>>,
    pub memory_mode: MigrationMode,
}

pub open spec fn string_opt_view(o: Option<String>) -> Option<Seq<char>> {
    match o {
        Some(s) => Some(s@),
        None => None,
    }
}

impl View for VmReceiveMigrationData {
    type V = VmReceiveMigrationDataSpec;

    open spec fn view(&self) -> VmReceiveMigrationDataSpec {
        VmReceiveMigrationDataSpec {
            receiver_url: self.receiver_url@,
            tls_dir: string_opt_view(self.tls_dir),
            memory_mode: self.memory_mode,
        }
    }
}

pub open spec fn receive_options() -> Seq<EntryV> {
    add_opt(add_opt(add_opt(Seq::empty(), "receiver_url"@, true), "tls_dir"@, true), "memory_mode"@, true)
}

pub open spec fn conv_migration_mode(e: Seq<EntryV>) -> Result<Option<MigrationMode>, OptErr> {
    lift("memory_mode"@, raw(e, "memory_mode"@), migration_mode_value(raw_or_empty(e, "memory_mode"@)))
}

/// The incoming migration that `s` describes: `receiver_url` is required,
/// `memory_mode` defaults to precopy.
pub open spec fn receive_spec(s: Seq<char>) -> Result<VmReceiveMigrationDataSpec, OptErr> {
    match parse_spec(receive_options(), s, false) {
        Err(e) => Err(e),
        Ok(e) => match opt_get(e, "receiver_url"@) {
            None => Err(OptErr::InvalidSyntax("receiver_url is required"@)),
            Some(url) => match conv_migration_mode(e) {
                Err(x) => Err(x),
                Ok(m) => Ok(VmReceiveMigrationDataSpec {
                    receiver_url: url,
                    tls_dir: raw(e, "tls_dir"@),
                    memory_mode: match m {
                        Some(m) => m,
                        None => MigrationMode::Precopy,
                    },
                }),
            },
        },
    }
}

pub open spec fn opt_rview<T: View>(r: Result<T, OptionParserError>) -> Result<T::V, OptErr> {
    match r {
        Ok(x) => Ok(x@),
        Err(e) => Err(e@),
    }
}

fn convert_migration_mode(parser: &OptionParser) -> (r: Result<Option<MigrationMode>, OptionParserError>)
    ensures
        match r {
            Ok(m) => conv_migration_mode(parser@) == Ok::<Option<MigrationMode>, OptErr>(m),
            Err(e) => conv_migration_mode(parser@) == Err::<Option<MigrationMode>, OptErr>(e@),
        },
{
    match parser.raw("memory_mode") {
        None => Ok(None),
        Some(v) => match migration_mode_of(&v) {
            Some(m) => Ok(Some(m)),
            None => Err(conversion_error("memory_mode", &v)),
        },
    }
}

impl VmReceiveMigrationData {
    pub fn parse(migration: &str) -> (r: Result<Self, OptionParserError>)
        ensures
            opt_rview(r) == receive_spec(migration@),
    {
        let mut parser = OptionParser::new();
        parser.add("receiver_url");
        parser.add("tls_dir");
        parser.add("memory_mode");
        if let Err(e) = parser.parse(migration) {
            return Err(e);
        }
        let receiver_url = match parser.get("receiver_url") {
            Some(u) => u,
            None => return Err(OptionParserError::InvalidSyntax(string_from("receiver_url is required"))),
        };
        let tls_dir = parser.convert_string("tls_dir");
        let memory_mode = match convert_migration_mode(&parser) {
            Ok(Some(m)) => m,
            Ok(None) => MigrationMode::Precopy,
            Err(e) => return Err(e),
        };
        Ok(VmReceiveMigrationData { receiver_url, tls_dir, memory_mode })
    }
}

/// The downtime a migration aims for when none is given: 300 ms.
pub const DEFAULT_DOWNTIME_MS: u64 = 300;

/// The longest a migration may take when no timeout is given: one hour.
pub const DEFAULT_TIMEOUT_S: u64 = 3600;

/// Parameters of an outgoing migration.
#[derive(Clone, Debug, PartialEq, Eq)]
pub struct VmSendMigrationData {
    /// The destination, e.g. `tcp:<host>:<port>` or `unix:/path/to/socket`.
    pub destination_url: String,
    /// Send memory across the socket without copying.
    pub local: bool,
    /// The maximum downtime the migration aims for, in milliseconds; never 0.
    pub downtime_ms: u64,
    /// The longest the migration may take, in seconds; never 0.
    pub timeout_s: u64,
    pub timeout_strategy: TimeoutStrategy,
    /// The number of parallel connections; never 0.
    pub connections: u32,
    /// Directory of the TLS client certificate, key and root CA certificate;
    /// when given, the migration uses mTLS.
    pub tls_dir: Option<String>,
    pub memory_mode: MigrationMode,
}

pub struct VmSendMigrationDataSpec {
    pub destination_url: Seq<char>,
    pub local: bool,
    pub downtime_ms: u64,
    pub timeout_s: u64,
    pub timeout_strategy: TimeoutStrategy,
    pub connections: u32,
    pub tls_dir: Option<Seq<char>>,
    pub memory_mode: MigrationMode,
}

impl View for VmSendMigrationData {
    type V = VmSendMigrationDataSpec;

    open spec fn view(&self) -> VmSendMigrationDataSpec {
        VmSendMigrationDataSpec {
            destination_url: self.destination_url@,
            local: self.local,
            downtime_ms: self.downtime_ms,
            timeout_s: self.timeout_s,
            timeout_strategy: self.timeout_strategy,
            connections: self.connections,
            tls_dir: string_opt_view(self.tls_dir),
            memory_mode: self.memory_mode,
        }
    }
}

pub open spec fn send_options() -> Seq<EntryV> {
    let e = add_opt(add_opt(add_opt(Seq::empty(), "destination_url"@, true), "local"@, true), "downtime_ms"@, true);
    let e = add_opt(add_opt(add_opt(e, "timeout_s"@, true), "timeout_strategy"@, true), "connections"@, true);
    add_opt(add_opt(e, "tls_dir"@, true), "memory_mode"@, true)
}

pub open spec fn conv_timeout_strategy(e: Seq<EntryV>) -> Result<Option<TimeoutStrategy>, OptErr> {
    lift("timeout_strategy"@, raw(e, "timeout_strategy"@), timeout_strategy_value(raw_or_empty(e, "timeout_strategy"@)))
}

/// The outgoing migration that `s` describes: `destination_url` is required;
/// `downtime_ms`, `timeout_s` and `connections` must not be 0 and default to
/// 300, 3600 and 1; the toggle defaults to off, the strategy to cancel and the
/// memory mode to precopy.
pub open spec fn send_spec(s: Seq<char>) -> Result<VmSendMigrationDataSpec, OptErr> {
    match parse_spec(send_options(), s, false) {
        Err(e) => Err(e),
        Ok(e) => match opt_get(e, "destination_url"@) {
            None => Err(OptErr::InvalidSyntax("destination_url is required"@)),
            Some(url) => match conv_toggle(e, "local"@) {
                Err(x) => Err(x),
                Ok(local) => match conv_u64(e, "downtime_ms"@) {
                    Err(x) => Err(x),
                    Ok(Some(0)) => Err(OptErr::InvalidValue("downtime_ms must be non-zero"@)),
                    Ok(downtime) => match conv_u64(e, "timeout_s"@) {
                        Err(x) => Err(x),
                        Ok(Some(0)) => Err(OptErr::InvalidValue("timeout_s must be non-zero"@)),
                        Ok(timeout) => match conv_timeout_strategy(e) {
                            Err(x) => Err(x),
                            Ok(strategy) => match conv_u32(e, "connections"@) {
                                Err(x) => Err(x),
                                Ok(Some(0)) => Err(OptErr::InvalidValue("connections must be non-zero"@)),
                                Ok(connections) => match conv_migration_mode(e) {
                                    Err(x) => Err(x),
                                    Ok(mode) => Ok(VmSendMigrationDataSpec {
                                        destination_url: url,
                                        local: match local {
                                            Some(b) => b,
                                            None => false,
                                        },
                                        downtime_ms: match downtime {
                                            Some(d) => d,
                                            None => DEFAULT_DOWNTIME_MS,
                                        },
                                        timeout_s: match timeout {
                                            Some(t) => t,
                                            None => DEFAULT_TIMEOUT_S,
                                        },
                                        timeout_strategy: match strategy {
                                            Some(t) => t,
                                            None => TimeoutStrategy::Cancel,
                                        },
                                        connections: match connections {
                                            Some(c) => c,
                                            None => 1,
                                        },
                                        tls_dir: raw(e, "tls_dir"@),
                                        memory_mode: match mode {
                                            Some(m) => m,
                                            None => MigrationMode::Precopy,
                                        },
                                    }),
                                },
                            },
                        },
                    },
                },
            },
        },
    }
}

fn convert_timeout_strategy(parser: &OptionParser) -> (r: Result<Option<TimeoutStrategy>, OptionParserError>)
    ensures
        match r {
            Ok(t) => conv_timeout_strategy(parser@) == Ok::<Option<TimeoutStrategy>, OptErr>(t),
            Err(e) => conv_timeout_strategy(parser@) == Err::<Option<TimeoutStrategy>, OptErr>(e@),
        },
{
    match parser.raw("timeout_strategy") {
        None => Ok(None),
        Some(v) => match timeout_strategy_of(&v) {
            Some(t) => Ok(Some(t)),
            None => Err(conversion_error("timeout_strategy", &v)),
        },
    }
}

impl VmSendMigrationData {
    /// The default downtime, in milliseconds.
    pub fn default_downtime_ms() -> (r: u64)
        ensures
            r == DEFAULT_DOWNTIME_MS,
    {
        DEFAULT_DOWNTIME_MS
    }

    /// The default timeout, in seconds.
    pub fn default_timeout_s() -> (r: u64)
        ensures
            r == DEFAULT_TIMEOUT_S,
    {
        DEFAULT_TIMEOUT_S
    }

    /// A single connection, the default.
    pub fn default_connections() -> (r: u32)
        ensures
            r == 1,
    {
        1
    }

    pub fn parse(migration: &str) -> (r: Result<Self, OptionParserError>)
        ensures
            opt_rview(r) == send_spec(migration@),
            r matches Ok(d) ==> d.downtime_ms != 0 && d.timeout_s != 0 && d.connections != 0,
    {
        let mut parser = OptionParser::new();
        parser.add("destination_url");
        parser.add("local");
        parser.add("downtime_ms");
        parser.add("timeout_s");
        parser.add("timeout_strategy");
        parser.add("connections");
        parser.add("tls_dir");
        parser.add("memory_mode");
        if let Err(e) = parser.parse(migration) {
            return Err(e);
        }
        let destination_url = match parser.get("destination_url") {
            Some(u) => u,
            None => return Err(OptionParserError::InvalidSyntax(string_from("destination_url is required"))),
        };
        let local = match parser.convert_toggle("local") {
            Ok(Some(b)) => b,
            Ok(None) => false,
            Err(e) => return Err(e),
        };
        let downtime_ms = match parser.convert_u64("downtime_ms") {
            Ok(Some(0)) => return Err(OptionParserError::InvalidValue(string_from("downtime_ms must be non-zero"))),
            Ok(Some(v)) => v,
            Ok(None) => Self::default_downtime_ms(),
            Err(e) => return Err(e),
        };
        let timeout_s = match parser.convert_u64("timeout_s") {
            Ok(Some(0)) => return Err(OptionParserError::InvalidValue(string_from("timeout_s must be non-zero"))),
            Ok(Some(v)) => v,
            Ok(None) => Self::default_timeout_s(),
            Err(e) => return Err(e),
        };
        let timeout_strategy = match convert_timeout_strategy(&parser) {
            Ok(Some(t)) => t,
            Ok(None) => TimeoutStrategy::Cancel,
            Err(e) => return Err(e),
        };
        let connections = match parser.convert_u32("connections") {
            Ok(Some(0)) => return Err(OptionParserError::InvalidValue(string_from("connections must be non-zero"))),
            Ok(Some(v)) => v,
            Ok(None) => Self::default_connections(),
            Err(e) => return Err(e),
        };
        let tls_dir = parser.convert_string("tls_dir");
        let memory_mode = match convert_migration_mode(&parser) {
            Ok(Some(m)) => m,
            Ok(None) => MigrationMode::Precopy,
            Err(e) => return Err(e),
        };
        Ok(VmSendMigrationData {
            destination_url,
            local,
            downtime_ms,
            timeout_s,
            timeout_strategy,
            connections,
            tls_dir,
            memory_mode,
        })
    }
}

/// A parsed incoming migration has the receiver URL and TLS directory
/// given, and the memory mode given (precopy when none is).
pub proof fn lemma_receive_fields(s: Seq<char>)
    ensures
        receive_spec(s) is Ok <==> {
            let p = parse_spec(receive_options(), s, false);
            &&& p is Ok
            &&& opt_get(p->Ok_0, "receiver_url"@) is Some
            &&& (raw(p->Ok_0, "memory_mode"@) matches Some(v) ==> migration_mode_value(v) is Some)
        },
        receive_spec(s) is Ok ==> {
            let e = parse_spec(receive_options(), s, false)->Ok_0;
            let d = receive_spec(s)->Ok_0;
            &&& Some(d.receiver_url) == opt_get(e, "receiver_url"@)
            &&& d.tls_dir == raw(e, "tls_dir"@)
            &&& d.memory_mode == match raw(e, "memory_mode"@) {
                Some(v) => migration_mode_value(v)->Some_0,
                None => MigrationMode::Precopy,
            }
        },
{
}

/// A parsed outgoing migration has the destination URL and TLS directory
/// given; it is local exactly when `local` is given as on; its downtime,
/// timeout and connection count are the non-zero numbers given (300 ms,
/// 3600 s and one when none are), a zero being refused; and it has the
/// timeout strategy (cancel when none is) and memory mode (precopy when
/// none is) given.
pub proof fn lemma_send_fields(s: Seq<char>)
    ensures
        send_spec(s) is Ok ==> {
            let e = parse_spec(send_options(), s, false)->Ok_0;
            let d = send_spec(s)->Ok_0;
            &&& Some(d.destination_url) == opt_get(e, "destination_url"@)
            &&& d.tls_dir == raw(e, "tls_dir"@)
            &&& d.local == (raw(e, "local"@) matches Some(v) && toggle_value(v) == Some(true))
            &&& d.downtime_ms == match raw(e, "downtime_ms"@) {
                Some(v) => u64_value(v)->Some_0,
                None => 300u64,
            }
            &&& d.timeout_s == match raw(e, "timeout_s"@) {
                Some(v) => u64_value(v)->Some_0,
                None => 3600u64,
            }
            &&& d.connections == match raw(e, "connections"@) {
                Some(v) => u32_value(v)->Some_0,
                None => 1u32,
            }
            &&& d.downtime_ms != 0 && d.timeout_s != 0 && d.connections != 0
            &&& d.timeout_strategy == match raw(e, "timeout_strategy"@) {
                Some(v) => timeout_strategy_value(v)->Some_0,
                None => TimeoutStrategy::Cancel,
            }
            &&& d.memory_mode == match raw(e, "memory_mode"@) {
                Some(v) => migration_mode_value(v)->Some_0,
                None => MigrationMode::Precopy,
            }
        },
{
}

} // verus!
