use vmm_config::vm_config::console::{ConsoleConfig, DebugConsoleConfig, SerialConfig};
use vmm_config::vm_config::cpus::CpusConfig;
use vmm_config::vm_config::devices::{DeviceConfig, LandlockConfig, TpmConfig, VsockConfig};
use vmm_config::vm_config::fs::FsConfig;
use vmm_config::vm_config::landlock::{ApplyLandlock, Landlock, LandlockError};
use vmm_config::vm_config::memory::MemoryConfig;
use vmm_config::vm_config::net::NetConfig;
use vmm_config::vm_config::net_addr::MacAddr;
use vmm_config::vm_config::payload::PayloadConfig;
use vmm_config::vm_config::platform::PlatformConfig;
use vmm_config::vm_config::pmem::PmemConfig;
use vmm_config::vm_config::rng::RngConfig;
use vmm_config::vm_config::vm::{
    default_diskconfig_num_queues, default_diskconfig_queue_size, default_diskconfig_sparse, DiskConfig,
    ImageType, LockGranularityChoice, VmConfig,
};
use vmm_config::vm_config::PciDeviceCommonConfig;
use vmm_config::vm_config::{invalidate_fd, invalidate_fds};

fn bare_vm_config() -> VmConfig {
    VmConfig {
        cpus: CpusConfig::default(),
        memory: MemoryConfig::default(),
        payload: None,
        rate_limit_groups: None,
        disks: None,
        net: None,
        rng: RngConfig::default(),
        balloon: None,
        generic_vhost_user: None,
        fs: None,
        pmem: None,
        serial: SerialConfig::default(),
        console: ConsoleConfig::default(),
        debug_console: DebugConsoleConfig::default(),
        devices: None,
        user_devices: None,
        vdpa: None,
        vsock: None,
        pvmemcontrol: None,
        pvpanic: false,
        iommu: false,
        numa: None,
        watchdog: false,
        rtc: None,
        pci_segments: None,
        platform: None,
        tpm: None,
        preserved_fds: None,
        landlock_enable: false,
        landlock_rules: None,
        ivshmem: None,
    }
}

fn rule(path: &str, access: &str) -> LandlockConfig {
    LandlockConfig { path: path.to_owned(), access: access.to_owned() }
}

#[test]
fn test_landlock_rules_of_a_bare_config() {
    let landlock = bare_vm_config().apply_landlock(&vec![]).unwrap();
    assert_eq!(landlock.rules(), &vec![rule("/dev/urandom", "r")]);
}

#[test]
fn test_landlock_rules_of_a_full_config() {
    let mut config = bare_vm_config();
    config.disks = Some(vec![DiskConfig {
        pci_common: PciDeviceCommonConfig::default(),
        path: Some("/tmp/disk.img".to_owned()),
        readonly: false,
        direct: false,
        num_queues: default_diskconfig_num_queues(),
        queue_size: default_diskconfig_queue_size(),
        vhost_user: false,
        vhost_socket: None,
        rate_limit_group: None,
        rate_limiter_config: None,
        disable_io_uring: false,
        disable_aio: false,
        serial: None,
        queue_affinity: None,
        backing_files: false,
        sparse: default_diskconfig_sparse(),
        image_type: ImageType::default(),
        lock_granularity: LockGranularityChoice::default(),
    }]);
    config.fs = Some(vec![FsConfig::parse("tag=t,socket=/tmp/fs.sock").unwrap()]);
    config.pmem = Some(vec![PmemConfig::parse("file=/tmp/pmem,discard_writes=on").unwrap()]);
    config.console = ConsoleConfig::parse("pty").unwrap();
    config.devices = Some(vec![
        DeviceConfig::parse("path=/sys/bus/pci/devices/0000:00:01.0/").unwrap(),
    ]);
    config.vsock = Some(VsockConfig::parse("cid=3,socket=/tmp/vsock/sock").unwrap());
    config.payload = Some(PayloadConfig {
        firmware: None,
        kernel: Some("/boot/vmlinux".to_owned()),
        cmdline: None,
        initramfs: None,
        fw_cfg_config: None,
    });
    config.tpm = Some(TpmConfig::parse("socket=/tmp/tpm.sock").unwrap());
    config.net = Some(vec![NetConfig::parse("tap=tap0", MacAddr { bytes: [2, 0, 0, 0, 0, 1] }).unwrap()]);
    config.landlock_rules = Some(vec![LandlockConfig::parse("path=/tmp/x,access=rw").unwrap()]);

    let landlock = config
        .apply_landlock(&vec!["../../../kernel/iommu_groups/12".to_owned()])
        .unwrap();
    assert_eq!(
        landlock.rules(),
        &vec![
            rule("/tmp/disk.img", "rw"),
            rule("/dev/urandom", "r"),
            rule("/tmp/fs.sock", "rw"),
            rule("/tmp/pmem", "r"),
            rule("/dev/pts", "rw"),
            rule("/dev/ptmx", "rw"),
            rule("/dev/vfio/vfio", "rw"),
            rule("/dev/vfio/12", "rw"),
            rule("/tmp/vsock", "w"),
            rule("/tmp/vsock/sock", "rw"),
            rule("/boot/vmlinux", "r"),
            rule("/tmp/tpm.sock", "rw"),
            rule("/dev/net/tun", "rw"),
            rule("/tmp/x", "rw"),
        ]
    );
}

#[test]
fn test_landlock_rejects_a_link_without_group() {
    let mut config = bare_vm_config();
    config.devices = Some(vec![DeviceConfig::parse("path=/sys/bus/pci/devices/0000:00:01.0/").unwrap()]);
    assert_eq!(config.apply_landlock(&vec!["/".to_owned()]).err(), Some(LandlockError::InvalidPath));
}

#[test]
fn test_landlock_device_without_path_needs_no_group() {
    let mut config = bare_vm_config();
    let mut device = DeviceConfig::parse("path=/sys/bus/pci/devices/0000:00:01.0/").unwrap();
    device.path = None;
    device.fd = Some(5);
    config.devices = Some(vec![device]);
    let landlock = config.apply_landlock(&vec![String::new()]).unwrap();
    assert_eq!(
        landlock.rules(),
        &vec![rule("/dev/urandom", "r"), rule("/dev/vfio/vfio", "rw")]
    );
}

#[test]
fn test_landlock_rules_with_given_groups() {
    let mut config = bare_vm_config();
    config.vsock = Some(VsockConfig::parse("cid=3,socket=sock").unwrap());
    let landlock = config.build_landlock(&vec![], None);
    assert_eq!(
        landlock.rules(),
        &vec![rule("/dev/urandom", "r"), rule("sock", "rw")]
    );
}

#[test]
fn test_component_rules_append() {
    let mut landlock = Landlock::new();
    PmemConfig::parse("file=/tmp/pmem").unwrap().apply_landlock(&mut landlock);
    RngConfig::parse("src=/dev/hwrng").unwrap().apply_landlock(&mut landlock);
    assert_eq!(landlock.rules(), &vec![rule("/tmp/pmem", "rw"), rule("/dev/hwrng", "r")]);
}

#[test]
fn test_smbios_config() {
    let platform = PlatformConfig::parse("num_pci_segments=1").unwrap();
    assert!(platform.smbios_config().is_none());

    let platform = PlatformConfig::parse("serial_number=abc,oem_strings=[x,y]").unwrap();
    let smbios = platform.smbios_config().unwrap();
    let system = smbios.system.unwrap();
    assert_eq!(system.serial_number, Some("abc".to_owned()));
    assert_eq!(system.manufacturer, None);
    assert!(smbios.chassis.is_none());
    assert_eq!(smbios.oem_strings, vec!["x".to_owned(), "y".to_owned()]);
}

#[test]
fn test_invalidated_fds() {
    assert_eq!(invalidate_fds(Some(vec![3, 4, 5])), Some(vec![-1, -1, -1]));
    assert_eq!(invalidate_fds(None), None);
    assert_eq!(invalidate_fd(Some(7)), Some(-1));
    assert_eq!(invalidate_fd(None), None);
}
