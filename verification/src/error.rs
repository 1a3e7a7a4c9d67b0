//! Errors of the configuration parsers.
use vstd::prelude::*;

use crate::option_parser::{OptErr, OptionParserError};

verus! {

/// A configuration that parses but is not valid.
#[derive(Debug, PartialEq, Eq)]
pub enum ValidationError {
    /// The console file path is missing.
    ConsoleFileMissing,
    /// The console socket path is missing.
    ConsoleSocketPathMissing,
    /// An I/O port that is not a hexadecimal `0x...` number.
    InvalidIoPortHex(String),
}

pub enum ValidationErrorSpec {
    ConsoleFileMissing,
    ConsoleSocketPathMissing,
    InvalidIoPortHex(Seq<char>),
}

impl View for ValidationError {
    type V = ValidationErrorSpec;

    open spec fn view(&self) -> ValidationErrorSpec {
        match self {
            ValidationError::ConsoleFileMissing => ValidationErrorSpec::ConsoleFileMissing,
            ValidationError::ConsoleSocketPathMissing => ValidationErrorSpec::ConsoleSocketPathMissing,
            ValidationError::InvalidIoPortHex(s) => ValidationErrorSpec::InvalidIoPortHex(s@),
        }
    }
}

/// Errors of the configuration parsers.
#[derive(Debug, PartialEq, Eq)]
pub enum Error {
    /// Error parsing the Balloon parameters.
    ParseBalloon(OptionParserError),
    /// Error parsing the Console parameters.
    ParseConsole(OptionParserError),
    /// Error parsing the Serial parameters.
    ParseSerial(OptionParserError),
    /// No console mode given.
    ParseConsoleInvalidModeGiven,
    /// A value that parses but is not valid.
    Validation(ValidationError),
    /// Error parsing the Cpus parameters.
    ParseCpus(OptionParserError),
    /// An unknown CPU feature.
    InvalidCpuFeatures(String),
    /// Error parsing the Device parameters.
    ParseDevice(OptionParserError),
    /// Error parsing the UserDevice parameters.
    ParseUserDevice(OptionParserError),
    /// The user device socket is missing.
    ParseUserDeviceSocketMissing,
    /// Error parsing the Vdpa parameters.
    ParseVdpa(OptionParserError),
    /// The vDPA device path is missing.
    ParseVdpaPathMissing,
    /// Error parsing the Vsock parameters.
    ParseVsock(OptionParserError),
    /// The vsock socket path is missing.
    ParseVsockSockMissing,
    /// The vsock context id is missing.
    ParseVsockCidMissing,
    /// Error parsing the Rtc parameters.
    ParseRtc(OptionParserError),
    /// Error parsing the PciSegment parameters.
    ParsePciSegment(OptionParserError),
    /// Error parsing the Tpm parameters.
    ParseTpm(OptionParserError),
    /// The TPM socket path is missing.
    ParseTpmPathMissing,
    /// Error parsing the LandlockRules parameters.
    ParseLandlockRules(OptionParserError),
    /// A Landlock rule lacks its path or its access.
    ParseLandlockMissingFields,
    /// Error parsing the Ivshmem parameters.
    ParseIvshmem(OptionParserError),
    /// The ivshmem backing file is missing.
    ParseIvshmemPathMissing,
    /// The ivshmem size (the field, in bytes) is not a power of two.
    ParseIvshmemSizeNotPowerOfTwo(u64),
    /// Error parsing the FileSystem parameters.
    ParseFileSystem(OptionParserError),
    /// The virtio-fs tag is missing.
    ParseFsTagMissing,
    /// The virtio-fs tag is longer than the device allows.
    ParseFsTagTooLong,
    /// The virtio-fs socket is missing.
    ParseFsSockMissing,
    /// Error parsing the Memory parameters.
    ParseMemory(OptionParserError),
    /// Error parsing the MemoryZone parameters.
    ParseMemoryZone(OptionParserError),
    /// A memory zone lacks its id.
    ParseMemoryZoneIdMissing,
    /// Error parsing the PciDeviceCommonConfig parameters.
    ParsePciDeviceCommonConfig(OptionParserError),
    /// Error parsing the Network parameters.
    ParseNetwork(OptionParserError),
    /// Error parsing the FwCfgItem parameters.
    ParseFwCfgItem(OptionParserError),
    /// Error parsing the Platform parameters.
    ParsePlatform(OptionParserError),
    /// Error parsing the PersistentMemory parameters.
    ParsePersistentMemory(OptionParserError),
    /// The persistent memory backing file is missing.
    ParsePmemFileMissing,
    /// Error parsing the Rng parameters.
    ParseRng(OptionParserError),
}

pub enum ErrorSpec {
    ParseBalloon(OptErr),
    ParseConsole(OptErr),
    ParseSerial(OptErr),
    ParseConsoleInvalidModeGiven,
    Validation(ValidationErrorSpec),
    ParseCpus(OptErr),
    InvalidCpuFeatures(Seq<char>),
    ParseDevice(OptErr),
    ParseUserDevice(OptErr),
    ParseUserDeviceSocketMissing,
    ParseVdpa(OptErr),
    ParseVdpaPathMissing,
    ParseVsock(OptErr),
    ParseVsockSockMissing,
    ParseVsockCidMissing,
    ParseRtc(OptErr),
    ParsePciSegment(OptErr),
    ParseTpm(OptErr),
    ParseTpmPathMissing,
    ParseLandlockRules(OptErr),
    ParseLandlockMissingFields,
    ParseIvshmem(OptErr),
    ParseIvshmemPathMissing,
    ParseIvshmemSizeNotPowerOfTwo(u64),
    ParseFileSystem(OptErr),
    ParseFsTagMissing,
    ParseFsTagTooLong,
    ParseFsSockMissing,
    ParseMemory(OptErr),
    ParseMemoryZone(OptErr),
    ParseMemoryZoneIdMissing,
    ParsePciDeviceCommonConfig(OptErr),
    ParseNetwork(OptErr),
    ParseFwCfgItem(OptErr),
    ParsePlatform(OptErr),
    ParsePersistentMemory(OptErr),
    ParsePmemFileMissing,
    ParseRng(OptErr),
}

impl View for Error {
    type V = ErrorSpec;

    open spec fn view(&self) -> ErrorSpec {
        match self {
            Error::ParseBalloon(x) => ErrorSpec::ParseBalloon(x@),
            Error::ParseConsole(x) => ErrorSpec::ParseConsole(x@),
            Error::ParseSerial(x) => ErrorSpec::ParseSerial(x@),
            Error::ParseConsoleInvalidModeGiven => ErrorSpec::ParseConsoleInvalidModeGiven,
            Error::Validation(x) => ErrorSpec::Validation(x@),
            Error::ParseCpus(x) => ErrorSpec::ParseCpus(x@),
            Error::InvalidCpuFeatures(x) => ErrorSpec::InvalidCpuFeatures(x@),
            Error::ParseDevice(x) => ErrorSpec::ParseDevice(x@),
            Error::ParseUserDevice(x) => ErrorSpec::ParseUserDevice(x@),
            Error::ParseUserDeviceSocketMissing => ErrorSpec::ParseUserDeviceSocketMissing,
            Error::ParseVdpa(x) => ErrorSpec::ParseVdpa(x@),
            Error::ParseVdpaPathMissing => ErrorSpec::ParseVdpaPathMissing,
            Error::ParseVsock(x) => ErrorSpec::ParseVsock(x@),
            Error::ParseVsockSockMissing => ErrorSpec::ParseVsockSockMissing,
            Error::ParseVsockCidMissing => ErrorSpec::ParseVsockCidMissing,
            Error::ParseRtc(x) => ErrorSpec::ParseRtc(x@),
            Error::ParsePciSegment(x) => ErrorSpec::ParsePciSegment(x@),
            Error::ParseTpm(x) => ErrorSpec::ParseTpm(x@),
            Error::ParseTpmPathMissing => ErrorSpec::ParseTpmPathMissing,
            Error::ParseLandlockRules(x) => ErrorSpec::ParseLandlockRules(x@),
            Error::ParseLandlockMissingFields => ErrorSpec::ParseLandlockMissingFields,
            Error::ParseIvshmem(x) => ErrorSpec::ParseIvshmem(x@),
            Error::ParseIvshmemPathMissing => ErrorSpec::ParseIvshmemPathMissing,
            Error::ParseIvshmemSizeNotPowerOfTwo(n) => ErrorSpec::ParseIvshmemSizeNotPowerOfTwo(*n),
            Error::ParseFileSystem(x) => ErrorSpec::ParseFileSystem(x@),
            Error::ParseFsTagMissing => ErrorSpec::ParseFsTagMissing,
            Error::ParseFsTagTooLong => ErrorSpec::ParseFsTagTooLong,
            Error::ParseFsSockMissing => ErrorSpec::ParseFsSockMissing,
            Error::ParseMemory(x) => ErrorSpec::ParseMemory(x@),
            Error::ParseMemoryZone(x) => ErrorSpec::ParseMemoryZone(x@),
            Error::ParseMemoryZoneIdMissing => ErrorSpec::ParseMemoryZoneIdMissing,
            Error::ParsePciDeviceCommonConfig(x) => ErrorSpec::ParsePciDeviceCommonConfig(x@),
            Error::ParseNetwork(x) => ErrorSpec::ParseNetwork(x@),
            Error::ParseFwCfgItem(x) => ErrorSpec::ParseFwCfgItem(x@),
            Error::ParsePlatform(x) => ErrorSpec::ParsePlatform(x@),
            Error::ParsePersistentMemory(x) => ErrorSpec::ParsePersistentMemory(x@),
            Error::ParsePmemFileMissing => ErrorSpec::ParsePmemFileMissing,
            Error::ParseRng(x) => ErrorSpec::ParseRng(x@),
        }
    }
}

/// The mathematical counterpart of a result.
pub open spec fn rview<T: View, E: View>(r: Result<T, E>) -> Result<T::V, E::V> {
    match r {
        Ok(t) => Ok(t@),
        Err(e) => Err(e@),
    }
}

/// The value of an option, or a default.
pub open spec fn or_default<T>(o: Option<T>, d: T) -> T {
    match o {
        Some(x) => x,
        None => d,
    }
}

} // verus!
