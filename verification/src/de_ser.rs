//! Whether a file descriptor is still serialized or active in this process.
use vstd::prelude::*;

verus! {

/// Errors of activating serialized descriptors.
#[derive(Debug, PartialEq, Eq)]
pub enum Error {
    Todo,
}

/// The status of a descriptor: serialized or active.
pub trait StatusMarker {}

/// A descriptor that is only a number, as it was serialized.
#[derive(Clone, Copy, Debug, PartialEq, Eq, Hash)]
pub struct Serialized;

/// A descriptor open in this process.
#[derive(Clone, Copy, Debug, PartialEq, Eq, Hash)]
pub struct Active;

impl StatusMarker for Serialized {}

impl StatusMarker for Active {}

/// A status that a descriptor can have.
pub trait FdMarker: StatusMarker {}

impl FdMarker for Serialized {}

impl FdMarker for Active {}

} // verus!
