//! The configuration of a whole VM, and the settings that only it holds.
use vstd::prelude::*;

use crate::vm_config::balloon::BalloonConfig;
use crate::vm_config::console::{ConsoleConfig, DebugConsoleConfig, SerialConfig};
use crate::vm_config::cpus::CpusConfig;
use crate::vm_config::devices::{
    DeviceConfig, IvshmemConfig, LandlockConfig, PciSegmentConfig, PvmemcontrolConfig, RtcConfig,
    TpmConfig, UserDeviceConfig, VdpaConfig, VsockConfig,
};
use crate::vm_config::fs::FsConfig;
use crate::vm_config::memory::MemoryConfig;
use crate::vm_config::net::{NetConfig, RateLimiterConfig};
use crate::vm_config::payload::PayloadConfig;
use crate::vm_config::platform::PlatformConfig;
use crate::vm_config::pmem::PmemConfig;
use crate::vm_config::rng::RngConfig;
use crate::vm_config::{PciDeviceCommonConfig, DEFAULT_DISK_NUM_QUEUES, DEFAULT_DISK_QUEUE_SIZE};

verus! {

/// A group of devices that share one rate limiter.
#[derive(Debug, PartialEq, Eq)]
pub struct RateLimiterGroupConfig {
    pub id: String,
    pub rate_limiter_config: RateLimiterConfig,
}

/// The host CPUs that serve one queue of a device.
#[derive(Debug, PartialEq, Eq)]
pub struct VirtQueueAffinity {
    pub queue_index: u16,
    pub host_cpus: Vec<usize>,
}

/// The format of a disk image.
#[derive(Clone, Copy, Debug, Default, PartialEq, Eq, Structural)]
pub enum ImageType {
    FixedVhd,
    Qcow2,
    Raw,
    Vhdx,
    #[default]
    Unknown,
}

/// How much of a disk image a lock covers.
#[derive(Clone, Copy, Debug, Default, PartialEq, Eq, Structural)]
pub enum LockGranularityChoice {
    #[default]
    ByteRange,
    Full,
}

/// A block device.
#[derive(Debug, PartialEq, Eq)]
pub struct DiskConfig {
    pub pci_common: PciDeviceCommonConfig,
    pub path: Option<String>,
    pub readonly: bool,
    pub direct: bool,
    pub num_queues: usize,
    pub queue_size: u16,
    pub vhost_user: bool,
    pub vhost_socket: Option<String>,
    pub rate_limit_group: Option<String>,
    pub rate_limiter_config: Option<RateLimiterConfig>,
    pub disable_io_uring: bool,
    pub disable_aio: bool,
    pub serial: Option<String>,
    pub queue_affinity: Option<Vec<VirtQueueAffinity>>,
    pub backing_files: bool,
    pub sparse: bool,
    pub image_type: ImageType,
    pub lock_granularity: LockGranularityChoice,
}

/// One queue unless given otherwise.
pub fn default_diskconfig_num_queues() -> (r: usize)
    ensures
        r == DEFAULT_DISK_NUM_QUEUES,
{
    DEFAULT_DISK_NUM_QUEUES
}

/// Queues of 128 entries unless given otherwise.
pub fn default_diskconfig_queue_size() -> (r: u16)
    ensures
        r == DEFAULT_DISK_QUEUE_SIZE,
{
    DEFAULT_DISK_QUEUE_SIZE
}

/// Disks are sparse unless given otherwise.
pub fn default_diskconfig_sparse() -> (r: bool)
    ensures
        r,
{
    true
}

/// A vhost-user device of any type.
#[derive(Debug, PartialEq, Eq)]
pub struct GenericVhostUserConfig {
    pub pci_common: PciDeviceCommonConfig,
    pub socket: String,
    pub queue_sizes: Vec<u16>,
    pub device_type: u32,
}

/// The distance from a NUMA node to another.
#[derive(Clone, Copy, Debug, PartialEq, Eq, Structural)]
pub struct NumaDistance {
    pub destination: u32,
    pub distance: u8,
}

/// A guest NUMA node.
#[derive(Debug, PartialEq, Eq)]
pub struct NumaConfig {
    pub guest_numa_id: u32,
    pub cpus: Option<Vec<u32>>,
    pub distances: Option<Vec<NumaDistance>>,
    pub memory_zones: Option<Vec<String>>,
    pub pci_segments: Option<Vec<u16>>,
    pub device_id: Option<String>,
}

/// The configuration of a VM.
#[derive(Debug, PartialEq, Eq)]
pub struct VmConfig {
    pub cpus: CpusConfig,
    pub memory: MemoryConfig,
    pub payload: Option<PayloadConfig>,
    pub rate_limit_groups: Option<Vec<RateLimiterGroupConfig>>,
    pub disks: Option<Vec<DiskConfig>>,
    pub net: Option<Vec<NetConfig>>,
    pub rng: RngConfig,
    pub balloon: Option<BalloonConfig>,
    pub generic_vhost_user: Option<Vec<GenericVhostUserConfig>>,
    pub fs: Option<Vec<FsConfig>>,
    pub pmem: Option<Vec<PmemConfig>>,
    pub serial: SerialConfig,
    pub console: ConsoleConfig,
    pub debug_console: DebugConsoleConfig,
    pub devices: Option<Vec<DeviceConfig>>,
    pub user_devices: Option<Vec<UserDeviceConfig>>,
    pub vdpa: Option<Vec<VdpaConfig>>,
    pub vsock: Option<VsockConfig>,
    pub pvmemcontrol: Option<PvmemcontrolConfig>,
    pub pvpanic: bool,
    pub iommu: bool,
    pub numa: Option<Vec<NumaConfig>>,
    pub watchdog: bool,
    pub rtc: Option<RtcConfig>,
    pub pci_segments: Option<Vec<PciSegmentConfig>>,
    pub platform: Option<PlatformConfig>,
    pub tpm: Option<TpmConfig>,
    /// Descriptors that live as long as the configuration, each once.
    pub preserved_fds: Option<Vec<i32>>,
    pub landlock_enable: bool,
    pub landlock_rules: Option<Vec<LandlockConfig>>,
    pub ivshmem: Option<IvshmemConfig>,
}

} // verus!
