//! Migration parameters after they were checked.
use vstd::prelude::*;

use crate::api::vm_migration as api;
use crate::api::vm_migration::{string_opt_view, MigrationMode, TimeoutStrategy};
use crate::migration::tls::{tls_message, tls_outcome, tls_rview, validate_tls_dir, TlsDirError, TlsDirErrorSpec, TlsEndpoint};
use crate::migration::transport::{
    tcp_address_to_server_name, tcp_error_message, tcp_server_name, TcpAddressParseError,
    MAX_MIGRATION_CONNECTIONS,
};
use crate::text::{chars_of, concat_str, starts_with, starts_with_str, string_from, strip_prefix, strip_prefix_str, string_of};

verus! {

/// Why the parameters of an outgoing migration are refused.
#[derive(Debug, PartialEq, Eq)]
pub enum VmSendMigrationConfigError {
    /// `destination_url` is a `tcp:` URL with a malformed address.
    InvalidDestinationUrl(TcpAddressParseError),
    /// Any other refusal, with its message.
    ValidationError(String),
}

pub enum SendErrSpec {
    InvalidDestinationUrl(TcpAddressParseError),
    ValidationError(Seq<char>),
}

impl View for VmSendMigrationConfigError {
    type V = SendErrSpec;

    open spec fn view(&self) -> SendErrSpec {
        match self {
            VmSendMigrationConfigError::InvalidDestinationUrl(e) => SendErrSpec::InvalidDestinationUrl(*e),
            VmSendMigrationConfigError::ValidationError(m) => SendErrSpec::ValidationError(m@),
        }
    }
}

impl VmSendMigrationConfigError {
    /// The message of the error, as it is displayed.
    pub fn message(&self) -> (r: String)
        ensures
            r@ == match self@ {
                SendErrSpec::InvalidDestinationUrl(_) => "Error validating send migration parameters: destination_url must use tcp:<host>:<port> or unix:<path>."@,
                SendErrSpec::ValidationError(m) => "Error validating send migration parameters: "@ + m,
            },
    {
        match self {
            VmSendMigrationConfigError::InvalidDestinationUrl(_) => string_from(
                "Error validating send migration parameters: destination_url must use tcp:<host>:<port> or unix:<path>.",
            ),
            VmSendMigrationConfigError::ValidationError(m) => concat_str(
                "Error validating send migration parameters: ",
                m.as_str(),
            ),
        }
    }
}

/// A checked outgoing migration.
#[derive(Clone, Debug, PartialEq, Eq)]
pub struct VmSendMigrationData {
    /// The destination, e.g. `tcp:<host>:<port>` or `unix:/path/to/socket`.
    pub destination_url: String,
    /// Send memory across the socket without copying.
    pub local: bool,
    /// The maximum downtime the migration aims for, in milliseconds.
    pub downtime_ms: u64,
    /// The longest the migration may take, in seconds.
    pub timeout_s: u64,
    pub timeout_strategy: TimeoutStrategy,
    /// The number of parallel connections, between 1 and
    /// `MAX_MIGRATION_CONNECTIONS`.
    pub connections: u32,
    /// Directory of the TLS client certificate, key and root CA certificate.
    pub tls_dir: Option<String>,
    pub memory_mode: MigrationMode,
}

impl View for VmSendMigrationData {
    type V = api::VmSendMigrationDataSpec;

    open spec fn view(&self) -> api::VmSendMigrationDataSpec {
        api::VmSendMigrationDataSpec {
            destination_url: self.destination_url@,
            local: self.local,
            downtime_ms: self.downtime_ms,
            timeout_s: self.timeout_s,
            timeout_strategy: self.timeout_strategy,
            connections: self.connections,
            tls_dir: string_opt_view(self.tls_dir),
            memory_mode: self.memory_mode,
        }
    }
}

pub open spec fn refuse(m: Seq<char>) -> Result<(), SendErrSpec> {
    Err(SendErrSpec::ValidationError(m))
}

/// The checks of the destination URL.
pub open spec fn send_url_check(d: api::VmSendMigrationDataSpec) -> Result<(), SendErrSpec> {
    match strip_prefix(d.destination_url, "tcp:"@) {
        Some(addr) => match tcp_server_name(addr) {
            Err(e) => Err(SendErrSpec::InvalidDestinationUrl(e)),
            Ok(_) => Ok(()),
        },
        None => match strip_prefix(d.destination_url, "unix:"@) {
            Some(path) => if path.len() == 0 {
                refuse("destination_url must use tcp:<host>:<port> or unix:<path>."@)
            } else if d.connections > 1 {
                refuse("UNIX sockets and connections option cannot be used at the same time."@)
            } else if d.tls_dir is Some {
                refuse("UNIX sockets and TLS encryption cannot be used at the same time."@)
            } else {
                Ok(())
            },
            None => refuse("destination_url must use tcp:<host>:<port> or unix:<path>."@),
        },
    }
}

/// The downtime, the timeout and the number of connections are never zero.
pub open spec fn send_nonzero_check(d: api::VmSendMigrationDataSpec) -> Result<(), SendErrSpec> {
    if d.downtime_ms == 0 {
        refuse("downtime_ms must be non-zero"@)
    } else if d.timeout_s == 0 {
        refuse("timeout_s must be non-zero"@)
    } else if d.connections == 0 {
        refuse("connections must be non-zero"@)
    } else {
        Ok(())
    }
}

/// The verdict on an outgoing migration `d`, where `tls` is what the check of
/// its TLS directory reported (it counts only when `d` has one).
pub open spec fn send_verdict(d: api::VmSendMigrationDataSpec, tls: Result<(), TlsDirErrorSpec>) -> Result<(), SendErrSpec> {
    match send_nonzero_check(d) {
        Err(e) => Err(e),
        Ok(()) => send_checked_verdict(d, tls),
    }
}

/// The verdict on an outgoing migration `d` whose downtime, timeout and
/// number of connections are not zero.
pub open spec fn send_checked_verdict(d: api::VmSendMigrationDataSpec, tls: Result<(), TlsDirErrorSpec>) -> Result<(), SendErrSpec> {
    match send_url_check(d) {
        Err(e) => Err(e),
        Ok(()) => if d.connections > MAX_MIGRATION_CONNECTIONS {
            refuse("connections must not exceed 128."@)
        } else if d.local && !starts_with(d.destination_url, "unix:"@) {
            refuse("local option is only supported with UNIX sockets."@)
        } else if d.local && d.connections > 1 {
            refuse("local option and connections option cannot be used at the same time."@)
        } else if d.tls_dir is Some && tls is Err {
            refuse("invalid TLS configuration for send-migration: "@ + tls_message(tls->Err_0))
        } else if d.memory_mode == MigrationMode::Postcopy && d.local {
            refuse("memory_mode=postcopy and local options are mutually exclusive."@)
        } else if d.memory_mode == MigrationMode::Postcopy && d.connections > 1 {
            refuse("memory_mode=postcopy currently requires a single connection (connections=1)."@)
        } else {
            Ok(())
        },
    }
}

/// `r` is a verdict that a check of `d` can give: the verdict of
/// [`send_verdict`] for some report of the TLS directory check that the
/// directory of `d` allows (any report, when `d` has no directory).
pub open spec fn send_outcome(d: api::VmSendMigrationDataSpec, r: Result<(), SendErrSpec>) -> bool {
    exists|t: Result<(), TlsDirErrorSpec>|
        (d.tls_dir matches Some(x) ==> tls_outcome(x, TlsEndpoint::Client, t)) && r == #[trigger] send_verdict(d, t)
}

pub open spec fn send_rview(r: Result<(), VmSendMigrationConfigError>) -> Result<(), SendErrSpec> {
    match r {
        Ok(()) => Ok(()),
        Err(e) => Err(e@),
    }
}

fn validation_error(m: &str) -> (r: VmSendMigrationConfigError)
    ensures
        r@ == SendErrSpec::ValidationError(m@),
{
    VmSendMigrationConfigError::ValidationError(string_from(m))
}

/// The duration that `Duration::from_millis` gives for `ms` milliseconds.
pub uninterp spec fn millis_duration(ms: u64) -> core::time::Duration;

/// The duration that `Duration::from_secs` gives for `s` seconds.
pub uninterp spec fn secs_duration(s: u64) -> core::time::Duration;

/// `std::time::Duration::from_millis`: the duration of `ms` milliseconds,
/// named [`millis_duration`].
#[verifier::external_body]
fn duration_from_millis(ms: u64) -> (r: core::time::Duration)
    ensures
        r == millis_duration(ms),
{
    core::time::Duration::from_millis(ms)
}

/// `std::time::Duration::from_secs`: the duration of `s` seconds, named
/// [`secs_duration`].
#[verifier::external_body]
fn duration_from_secs(s: u64) -> (r: core::time::Duration)
    ensures
        r == secs_duration(s),
{
    core::time::Duration::from_secs(s)
}

/// An outgoing migration passes its check exactly when it has a downtime, a
/// timeout and between 1 and 128 connections; a destination
/// `tcp:<host>:<port>` with a well-formed address, or `unix:<path>` with one
/// connection and no TLS; local migration only over a UNIX socket with one
/// connection; a TLS directory only when its check passed; and postcopy only
/// with one connection and not locally.
pub proof fn lemma_accepted_send_migration(d: api::VmSendMigrationDataSpec, tls: Result<(), TlsDirErrorSpec>)
    ensures
        send_verdict(d, tls) is Ok <==> {
            &&& d.downtime_ms != 0
            &&& d.timeout_s != 0
            &&& 1 <= d.connections <= MAX_MIGRATION_CONNECTIONS
            &&& match strip_prefix(d.destination_url, "tcp:"@) {
                Some(addr) => tcp_server_name(addr) is Ok,
                None => strip_prefix(d.destination_url, "unix:"@) matches Some(path) && path.len() > 0
                    && d.connections == 1 && d.tls_dir is None,
            }
            &&& d.local ==> starts_with(d.destination_url, "unix:"@) && d.connections == 1
            &&& d.tls_dir is Some ==> tls is Ok
            &&& d.memory_mode == MigrationMode::Postcopy ==> !d.local && d.connections == 1
        },
{
}

/// Without a TLS directory, the report of the directory check does not
/// count in the verdict on an outgoing migration.
pub proof fn lemma_send_verdict_without_tls(d: api::VmSendMigrationDataSpec, tls: Result<(), TlsDirErrorSpec>)
    requires
        d.tls_dir is None,
    ensures
        send_verdict(d, tls) == send_verdict(d, Ok(())),
{
}

impl VmSendMigrationData {
    /// The downtime the migration aims for.
    pub fn downtime(&self) -> (r: core::time::Duration)
        ensures
            r == millis_duration(self.downtime_ms),
    {
        duration_from_millis(self.downtime_ms)
    }

    /// The longest the migration may take.
    pub fn timeout(&self) -> (r: core::time::Duration)
        ensures
            r == secs_duration(self.timeout_s),
    {
        duration_from_secs(self.timeout_s)
    }

    /// The verdict on these parameters, given what the check of the TLS
    /// directory reported.
    pub fn validate_with_tls(&self, tls: Result<(), TlsDirError>) -> (r: Result<(), VmSendMigrationConfigError>)
        ensures
            send_rview(r) == send_verdict(self@, tls_rview(tls)),
    {
        if self.downtime_ms == 0 {
            return Err(validation_error("downtime_ms must be non-zero"));
        }
        if self.timeout_s == 0 {
            return Err(validation_error("timeout_s must be non-zero"));
        }
        if self.connections == 0 {
            return Err(validation_error("connections must be non-zero"));
        }
        let url = chars_of(self.destination_url.as_str());
        match strip_prefix_str(&url, "tcp:") {
            Some(addr) => {
                let a = string_of(&addr);
                match tcp_address_to_server_name(a.as_str()) {
                    Err(e) => return Err(VmSendMigrationConfigError::InvalidDestinationUrl(e)),
                    Ok(_) => {},
                }
            },
            None => match strip_prefix_str(&url, "unix:") {
                Some(path) => {
                    if path.len() == 0 {
                        return Err(validation_error("destination_url must use tcp:<host>:<port> or unix:<path>."));
                    }
                    if self.connections > 1 {
                        return Err(validation_error("UNIX sockets and connections option cannot be used at the same time."));
                    }
                    if self.tls_dir.is_some() {
                        return Err(validation_error("UNIX sockets and TLS encryption cannot be used at the same time."));
                    }
                },
                None => return Err(validation_error("destination_url must use tcp:<host>:<port> or unix:<path>.")),
            },
        }
        if self.connections > MAX_MIGRATION_CONNECTIONS {
            return Err(validation_error("connections must not exceed 128."));
        }
        if self.local {
            if !starts_with_str(&url, "unix:") {
                return Err(validation_error("local option is only supported with UNIX sockets."));
            }
            if self.connections > 1 {
                return Err(validation_error("local option and connections option cannot be used at the same time."));
            }
        }
        if self.tls_dir.is_some() {
            if let Err(e) = tls {
                let m = e.message();
                return Err(VmSendMigrationConfigError::ValidationError(
                    concat_str("invalid TLS configuration for send-migration: ", m.as_str()),
                ));
            }
        }
        let postcopy = match self.memory_mode {
            MigrationMode::Postcopy => true,
            MigrationMode::Precopy => false,
        };
        if postcopy {
            if self.local {
                return Err(validation_error("memory_mode=postcopy and local options are mutually exclusive."));
            }
            if self.connections > 1 {
                return Err(validation_error("memory_mode=postcopy currently requires a single connection (connections=1)."));
            }
        }
        Ok(())
    }

    /// Checks the parameters, the TLS directory on disk included.
    pub fn validate(&self) -> (r: Result<(), VmSendMigrationConfigError>)
        ensures
            send_outcome(self@, send_rview(r)),
    {
        let tls = match &self.tls_dir {
            Some(d) => validate_tls_dir(d.as_str(), TlsEndpoint::Client),
            None => Ok(()),
        };
        let r = self.validate_with_tls(tls);
        assert(send_rview(r) == send_verdict(self@, tls_rview(tls)));
        r
    }

    /// The checked parameters of an outgoing migration that the API received.
    pub fn try_from(value: api::VmSendMigrationData) -> (r: Result<Self, VmSendMigrationConfigError>)
        ensures
            match r {
                Ok(d) => d@ == value@ && send_outcome(value@, Ok(())),
                Err(e) => send_outcome(value@, Err(e@)),
            },
    {
        let config = VmSendMigrationData {
            destination_url: value.destination_url,
            local: value.local,
            downtime_ms: value.downtime_ms,
            timeout_s: value.timeout_s,
            timeout_strategy: value.timeout_strategy,
            connections: value.connections,
            tls_dir: value.tls_dir,
            memory_mode: value.memory_mode,
        };
        match config.validate() {
            Ok(()) => Ok(config),
            Err(e) => Err(e),
        }
    }
}


/// Why the parameters of an incoming migration are refused.
#[derive(Debug, PartialEq, Eq)]
pub enum VmReceiveMigrationDataValidationError {
    ValidationError(String),
}

impl View for VmReceiveMigrationDataValidationError {
    type V = Seq<char>;

    open spec fn view(&self) -> Seq<char> {
        match self {
            VmReceiveMigrationDataValidationError::ValidationError(m) => m@,
        }
    }
}

/// A checked incoming migration.
#[derive(Clone, Debug, Default, PartialEq, Eq)]
pub struct VmReceiveMigrationData {
    /// Where the migration state is received.
    pub receiver_url: String,
    /// Directory of the TLS server certificate, key and root CA certificate.
    pub tls_dir: Option<String>,
    pub memory_mode: MigrationMode,
}

impl View for VmReceiveMigrationData {
    type V = api::VmReceiveMigrationDataSpec;

    open spec fn view(&self) -> api::VmReceiveMigrationDataSpec {
        api::VmReceiveMigrationDataSpec {
            receiver_url: self.receiver_url@,
            tls_dir: string_opt_view(self.tls_dir),
            memory_mode: self.memory_mode,
        }
    }
}

/// The verdict on an incoming migration `d`, where `tls` is what the check of
/// its TLS directory reported (it counts only when `d` has one); an error is
/// its message.
pub open spec fn receive_verdict(d: api::VmReceiveMigrationDataSpec, tls: Result<(), TlsDirErrorSpec>) -> Result<(), Seq<char>> {
    let url_check: Result<(), Seq<char>> = match strip_prefix(d.receiver_url, "tcp:"@) {
        Some(addr) => match tcp_server_name(addr) {
            Err(e) => Err("receiver_url must use tcp:<host>:<port> or unix:<path>: "@ + tcp_error_message(e) + "."@),
            Ok(_) => Ok(()),
        },
        None => match strip_prefix(d.receiver_url, "unix:"@) {
            Some(path) => if path.len() == 0 {
                Err("receiver_url must use tcp:<host>:<port> or unix:<path>."@)
            } else if d.tls_dir is Some {
                Err("UNIX sockets and TLS encryption cannot be used at the same time."@)
            } else {
                Ok(())
            },
            None => Err("receiver_url must use tcp:<host>:<port> or unix:<path>."@),
        },
    };
    match url_check {
        Err(m) => Err(m),
        Ok(()) => if d.tls_dir is Some && tls is Err {
            Err("invalid TLS configuration for receive-migration: "@ + tls_message(tls->Err_0))
        } else {
            Ok(())
        },
    }
}

/// `r` is a verdict that a check of `d` can give, whatever the TLS directory
/// holds.
pub open spec fn receive_outcome(d: api::VmReceiveMigrationDataSpec, r: Result<(), Seq<char>>) -> bool {
    exists|t: Result<(), TlsDirErrorSpec>|
        (d.tls_dir matches Some(x) ==> tls_outcome(x, TlsEndpoint::Server, t)) && r == #[trigger] receive_verdict(d, t)
}

/// An incoming migration passes its check exactly when its receiver is
/// `tcp:<host>:<port>` with a well-formed address, or `unix:<path>` with a
/// path and no TLS directory, and a TLS directory only when its check
/// passed; without a TLS directory the report of that check does not count.
pub proof fn lemma_accepted_receive_migration(d: api::VmReceiveMigrationDataSpec, tls: Result<(), TlsDirErrorSpec>)
    ensures
        receive_verdict(d, tls) is Ok <==> {
            &&& match strip_prefix(d.receiver_url, "tcp:"@) {
                Some(addr) => tcp_server_name(addr) is Ok,
                None => strip_prefix(d.receiver_url, "unix:"@) matches Some(path) && path.len() > 0
                    && d.tls_dir is None,
            }
            &&& d.tls_dir is Some ==> tls is Ok
        },
        d.tls_dir is None ==> receive_verdict(d, tls) == receive_verdict(d, Ok(())),
{
}

pub open spec fn receive_rview(r: Result<(), VmReceiveMigrationDataValidationError>) -> Result<(), Seq<char>> {
    match r {
        Ok(()) => Ok(()),
        Err(e) => Err(e@),
    }
}

fn receive_error(m: &str) -> (r: VmReceiveMigrationDataValidationError)
    ensures
        r@ == m@,
{
    VmReceiveMigrationDataValidationError::ValidationError(string_from(m))
}

impl VmReceiveMigrationData {
    /// The verdict on these parameters, given what the check of the TLS
    /// directory reported.
    pub fn validate_with_tls(&self, tls: Result<(), TlsDirError>) -> (r: Result<(), VmReceiveMigrationDataValidationError>)
        ensures
            receive_rview(r) == receive_verdict(self@, tls_rview(tls)),
    {
        let url = chars_of(self.receiver_url.as_str());
        match strip_prefix_str(&url, "tcp:") {
            Some(addr) => {
                let a = string_of(&addr);
                match tcp_address_to_server_name(a.as_str()) {
                    Err(e) => {
                        let m = concat_str("receiver_url must use tcp:<host>:<port> or unix:<path>: ", e.message().as_str());
                        return Err(VmReceiveMigrationDataValidationError::ValidationError(concat_str(m.as_str(), ".")));
                    },
                    Ok(_) => {},
                }
            },
            None => match strip_prefix_str(&url, "unix:") {
                Some(path) => {
                    if path.len() == 0 {
                        return Err(receive_error("receiver_url must use tcp:<host>:<port> or unix:<path>."));
                    }
                    if self.tls_dir.is_some() {
                        return Err(receive_error("UNIX sockets and TLS encryption cannot be used at the same time."));
                    }
                },
                None => return Err(receive_error("receiver_url must use tcp:<host>:<port> or unix:<path>.")),
            },
        }
        if self.tls_dir.is_some() {
            if let Err(e) = tls {
                let m = e.message();
                return Err(VmReceiveMigrationDataValidationError::ValidationError(
                    concat_str("invalid TLS configuration for receive-migration: ", m.as_str()),
                ));
            }
        }
        Ok(())
    }

    /// Checks the parameters, the TLS directory on disk included.
    pub fn validate(&self) -> (r: Result<(), VmReceiveMigrationDataValidationError>)
        ensures
            receive_outcome(self@, receive_rview(r)),
    {
        let tls = match &self.tls_dir {
            Some(d) => validate_tls_dir(d.as_str(), TlsEndpoint::Server),
            None => Ok(()),
        };
        let r = self.validate_with_tls(tls);
        assert(receive_rview(r) == receive_verdict(self@, tls_rview(tls)));
        r
    }

    /// The checked parameters of an incoming migration that the API received.
    pub fn try_from(value: api::VmReceiveMigrationData) -> (r: Result<Self, VmReceiveMigrationDataValidationError>)
        ensures
            match r {
                Ok(d) => d@ == value@ && receive_outcome(value@, Ok(())),
                Err(e) => receive_outcome(value@, Err(e@)),
            },
    {
        let config = VmReceiveMigrationData {
            receiver_url: value.receiver_url,
            tls_dir: value.tls_dir,
            memory_mode: value.memory_mode,
        };
        match config.validate() {
            Ok(()) => Ok(config),
            Err(e) => Err(e),
        }
    }
}

} // verus!
