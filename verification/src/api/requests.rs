//! Small requests of the API and the states a VM goes through.
use vstd::prelude::*;

verus! {

/// Where a snapshot is written.
#[derive(Clone, Debug, Default, PartialEq, Eq)]
pub struct VmSnapshotConfig {
    /// The snapshot destination URL.
    pub destination_url: String,
}

/// Where a core dump is written.
#[derive(Clone, Debug, Default, PartialEq, Eq)]
pub struct VmCoredumpData {
    /// The core dump destination file.
    pub destination_url: String,
}

/// The device to remove.
#[derive(Clone, Debug, Default, PartialEq, Eq)]
pub struct VmRemoveDeviceData {
    pub id: String,
}

/// The sizes a resize asks for.
#[derive(Clone, Debug, Default, PartialEq, Eq)]
pub struct VmResizeData {
    pub desired_vcpus: Option<u32>,
    pub desired_ram: Option<u64>,
    pub desired_balloon: Option<u64>,
}

/// The life cycle of a VM.
#[derive(Clone, Copy, Debug, PartialEq, Eq, Structural)]
pub enum VmState {
    Created,
    Running,
    Shutdown,
    Paused,
    BreakPoint,
}

} // verus!
