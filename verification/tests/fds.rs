use vmm_config::api::vm_restore::{RestoredNetConfig, RestoredVfioConfig};
use vmm_config::external_fds::{
    receive_migration_ingest_scm_rights, restore_ingest_scm_rights,
    ExternalFdOperation, ExternalFdTarget, ExternalFds, ExternalFdsEntry, IngestScmRightsError,
    ParseExternalFdTargetError,
};
use vmm_config::fd::{FdApplyError, FdMap};
use vmm_config::fd_device::{FdDevice, FdDeviceParseError, SerializableFd};
use vmm_config::fd_update::FdUpdateError;
use vmm_config::option_parser::OptionParser;
use vmm_config::vm_config::console::{ConsoleConfig, DebugConsoleConfig, SerialConfig};
use vmm_config::vm_config::cpus::CpusConfig;
use vmm_config::vm_config::devices::DeviceConfig;
use vmm_config::vm_config::platform::PlatformConfig;
use vmm_config::vm_config::memory::MemoryConfig;
use vmm_config::vm_config::net::NetConfig;
use vmm_config::vm_config::net_addr::MacAddr;
use vmm_config::vm_config::rng::RngConfig;
use vmm_config::vm_config::vm::VmConfig;

fn net_target(id: &str) -> ExternalFdTarget {
    ExternalFdTarget::Net { id: id.to_owned() }
}

#[test]
fn test_from_str() {
    let input = "net(foo_123!?())";
    assert_eq!(
        FdDevice::from_str(input),
        Ok(FdDevice::Net {
            id: "foo_123!?()".to_owned()
        })
    );

    let input = "foo(123)";
    assert_eq!(
        FdDevice::from_str(input),
        Err(FdDeviceParseError::InvalidValue("foo".to_owned()))
    );

    let input = "net(123";
    assert_eq!(
        FdDevice::from_str(input),
        Err(FdDeviceParseError::InvalidValue("net(123".to_owned()))
    );
}

#[test]
fn test_parse_external_fd_target() {
    assert_eq!(net_target("foo"), ExternalFdTarget::from_str("net(foo)").unwrap());

    assert_eq!(
        ParseExternalFdTargetError::EmptyIdent("net()".to_owned()),
        ExternalFdTarget::from_str("net()").unwrap_err()
    );

    assert_eq!(
        ParseExternalFdTargetError::InvalidValue("net((".to_owned()),
        ExternalFdTarget::from_str("net((").unwrap_err()
    );

    assert_eq!(
        ParseExternalFdTargetError::InvalidValue("net".to_owned()),
        ExternalFdTarget::from_str("net").unwrap_err()
    );
}

#[test]
fn parse_external_fds() {
    let mut parser = OptionParser::new();
    parser.add("external_fds");
    parser.parse("external_fds=[net(1)@[1,2],net(2)@[3,4]]").unwrap();

    let external_fds = ExternalFds::from_tuple_list(&parser.get("external_fds").unwrap()).unwrap();

    assert_eq!(
        external_fds,
        ExternalFds {
            external_fds: vec![
                ExternalFdsEntry::new(net_target("1"), vec![1, 2]),
                ExternalFdsEntry::new(net_target("2"), vec![3, 4]),
            ]
        }
    );
}

#[test]
fn test_external_fds_list_errors() {
    assert_eq!(ExternalFds::from_tuple_list("[foo(1)@[1]]"), None);
    assert_eq!(ExternalFds::from_tuple_list("[net(1)@[x]]"), None);
    assert_eq!(ExternalFds::from_tuple_list("net(1)@[1]"), None);
}

#[test]
fn test_take_raw_fds_then_ingest_gives_them_back() {
    let mut fds = ExternalFds::from_entries(vec![
        ExternalFdsEntry::new(net_target("a"), vec![10, 11]),
        ExternalFdsEntry::new(ExternalFdTarget::Iommu, vec![12]),
    ]);
    let original = ExternalFds::from_entries(vec![
        ExternalFdsEntry::new(net_target("a"), vec![10, 11]),
        ExternalFdsEntry::new(ExternalFdTarget::Iommu, vec![12]),
    ]);
    let raw = fds.take_raw_fds();
    assert_eq!(raw, vec![10, 11, 12]);
    assert_eq!(fds.external_fds[0].received_fds, Vec::<i32>::new());
    assert_eq!(fds.ingest_scm_rights(raw), Ok(()));
    assert_eq!(fds, original);
}

#[test]
fn test_ingest_counts() {
    let mut fds = ExternalFds::from_entries(vec![ExternalFdsEntry::new(net_target("a"), vec![1, 2])]);
    assert_eq!(fds.ingest_scm_rights(vec![5]), Err(IngestScmRightsError::TooLittleFds));
    let mut fds = ExternalFds::from_entries(vec![ExternalFdsEntry::new(net_target("a"), vec![1, 2])]);
    assert_eq!(fds.ingest_scm_rights(vec![5, 6, 7]), Err(IngestScmRightsError::TooManyFds));
}

fn vm_config_with_nets(net: Option<Vec<NetConfig>>) -> VmConfig {
    VmConfig {
        cpus: CpusConfig::default(),
        memory: MemoryConfig::default(),
        payload: None,
        rate_limit_groups: None,
        disks: None,
        net,
        rng: RngConfig::default(),
        balloon: None,
        generic_vhost_user: None,
        fs: None,
        pmem: None,
        serial: SerialConfig::default(),
        console: ConsoleConfig::default(),
        debug_console: DebugConsoleConfig::default(),
        devices: None,
        user_devices: None,
        vdpa: None,
        vsock: None,
        pvmemcontrol: None,
        pvpanic: false,
        iommu: false,
        numa: None,
        watchdog: false,
        rtc: None,
        pci_segments: None,
        platform: None,
        tpm: None,
        preserved_fds: None,
        landlock_enable: false,
        landlock_rules: None,
        ivshmem: None,
    }
}

fn net(spec: &str) -> NetConfig {
    NetConfig::parse(spec, MacAddr { bytes: [2, 0, 0, 0, 0, 1] }).unwrap()
}

fn todo(m: &str) -> FdApplyError {
    FdApplyError::Todo(m.to_owned())
}

fn net_device(id: &str) -> FdDevice {
    FdDevice::Net { id: id.to_owned() }
}

#[test]
fn test_fd_map_apply_replaces_net_fds() {
    let mut config = vm_config_with_nets(Some(vec![net("id=net0,fd=[3,4]"), net("id=net1")]));
    let map = FdMap::new_with_content(&vec![(net_device("net0"), vec![10, 11])]);
    assert_eq!(map.validate(&config), Ok(()));
    assert_eq!(map.apply(&mut config), Ok(()));
    assert_eq!(config.net.as_ref().unwrap()[0].fds, Some(vec![10, 11]));
    assert_eq!(config.net.as_ref().unwrap()[1].fds, None);
}

#[test]
fn test_fd_map_apply_errors() {
    let map = FdMap::new_with_content(&vec![(net_device("net0"), vec![10, 11])]);
    let config = vm_config_with_nets(None);
    assert_eq!(map.validate(&config), Err(todo("VM config is missing net devices")));

    let config = vm_config_with_nets(Some(vec![net("id=other,fd=[3,4]")]));
    assert_eq!(map.validate(&config), Err(todo("could not find net device with id net0")));

    let config = vm_config_with_nets(Some(vec![net("id=net0")]));
    assert_eq!(
        map.validate(&config),
        Err(todo("cannot restore FDs for net0, device does not use FDs"))
    );

    let mut config = vm_config_with_nets(Some(vec![net("id=net0,fd=[3]")]));
    assert_eq!(map.validate(&config), Err(todo("FD count mismatch between config and device")));
    assert_eq!(map.apply(&mut config), Err(todo("FD count mismatch between config and device")));
    assert_eq!(config.net.as_ref().unwrap()[0].fds, Some(vec![3]));
}

#[test]
fn test_fd_map_apply_keeps_earlier_devices_on_error() {
    let mut config = vm_config_with_nets(Some(vec![net("id=a,fd=[3]"), net("id=b,fd=[4]")]));
    let map = FdMap::new_with_content(&vec![(net_device("a"), vec![7]), (net_device("b"), vec![8, 9])]);
    assert_eq!(map.apply(&mut config), Err(todo("FD count mismatch between config and device")));
    assert_eq!(config.net.as_ref().unwrap()[0].fds, Some(vec![7]));
    assert_eq!(config.net.as_ref().unwrap()[1].fds, Some(vec![4]));
}

#[test]
fn test_fd_map_insert_extract_update() {
    let mut map = FdMap::new();
    assert!(map.is_empty());
    map.insert(net_device("b"), SerializableFd::new_active(5));
    map.insert(net_device("a"), SerializableFd::new_active(6));
    map.insert(net_device("b"), SerializableFd::new_serialized(7));
    assert!(!map.is_empty());
    // Devices in order: a, then b.
    assert_eq!(map.extract_fds(), vec![SerializableFd::Active(6), SerializableFd::Active(5)]);
    assert_eq!(map.extract_fds(), vec![]);
    map.update_fds(vec![20, 21, 22]);
    assert_eq!(
        map.extract_fds(),
        vec![SerializableFd::Active(20), SerializableFd::Active(21), SerializableFd::Active(22)]
    );
}

#[test]
fn test_new_with_content_keeps_last_entry() {
    let map = FdMap::new_with_content(&vec![(net_device("a"), vec![1]), (net_device("a"), vec![2, 3])]);
    let mut map = map;
    assert_eq!(map.extract_fds(), vec![SerializableFd::Active(2), SerializableFd::Active(3)]);
}

#[test]
fn test_serializable_fd_list() {
    assert_eq!(
        SerializableFd::parse_list("[3,5-6]"),
        Some(vec![SerializableFd::Active(3), SerializableFd::Active(5), SerializableFd::Active(6)])
    );
    assert_eq!(SerializableFd::parse_list("[x]"), None);
}

#[test]
fn test_update_fds_hands_descriptors_to_nets() {
    let mut config = vm_config_with_nets(Some(vec![net("id=net0,fd=[3,4]")]));
    let fds = ExternalFds::from_entries(vec![ExternalFdsEntry::new(net_target("net0"), vec![30, 40])]);
    assert_eq!(config.update_fds(fds, ExternalFdOperation::Restore), Ok(()));
    assert_eq!(config.net.as_ref().unwrap()[0].fds, Some(vec![30, 40]));
}

#[test]
fn test_update_fds_errors() {
    let mut config = vm_config_with_nets(Some(vec![net("id=net0,fd=[3,4]")]));
    let fds = ExternalFds::from_entries(vec![ExternalFdsEntry::new(net_target("net0"), vec![30])]);
    assert_eq!(
        config.update_fds(fds, ExternalFdOperation::Restore),
        Err(FdUpdateError::FdAmountMismatch { target: net_target("net0"), expected: 2, actual: 1 })
    );
    assert_eq!(config.net.as_ref().unwrap()[0].fds, Some(vec![3, 4]));

    let mut config = vm_config_with_nets(Some(vec![net("id=net0,fd=[3,4]")]));
    let fds = ExternalFds::from_entries(vec![]);
    assert_eq!(
        config.update_fds(fds, ExternalFdOperation::Restore),
        Err(FdUpdateError::MissingFds(net_target("net0")))
    );

    let mut config = vm_config_with_nets(Some(vec![net("fd=[3,4]")]));
    let fds = ExternalFds::from_entries(vec![]);
    assert_eq!(config.update_fds(fds, ExternalFdOperation::Restore), Err(FdUpdateError::MissingId));

    let mut config = vm_config_with_nets(Some(vec![net("id=net0")]));
    let fds = ExternalFds::from_entries(vec![ExternalFdsEntry::new(net_target("net0"), vec![30])]);
    assert_eq!(
        config.update_fds(fds, ExternalFdOperation::Restore),
        Err(FdUpdateError::UnexpectedFds(net_target("net0")))
    );

    let mut config = vm_config_with_nets(None);
    let fds = ExternalFds::from_entries(vec![
        ExternalFdsEntry::new(net_target("z"), vec![1]),
        ExternalFdsEntry::new(net_target("b"), vec![2]),
    ]);
    assert_eq!(
        config.update_fds(fds, ExternalFdOperation::Restore),
        Err(FdUpdateError::SuperfluousFds(vec![net_target("b"), net_target("z")]))
    );

    let mut config = vm_config_with_nets(None);
    let fds = ExternalFds::from_entries(vec![
        ExternalFdsEntry::new(net_target("a"), vec![1]),
        ExternalFdsEntry::new(net_target("a"), vec![2]),
    ]);
    assert_eq!(
        config.update_fds(fds, ExternalFdOperation::Restore),
        Err(FdUpdateError::DuplicatedTargetEntry(net_target("a")))
    );
}

#[test]
fn test_fd_device_name_roundtrip() {
    let device = net_device("foo(1)");
    assert_eq!(device.to_string(), "net(foo(1))");
    assert_eq!(FdDevice::from_str(&device.to_string()), Ok(device));
}

#[test]
fn test_restore_ingest_imports_old_lists_first() {
    let mut external_fds = ExternalFds::from_entries(vec![]);
    let mut net_fds = Some(vec![RestoredNetConfig { id: "net0".to_owned(), num_fds: 2, fds: Some(vec![-1, -1]) }]);
    let mut vfio_fds = Some(vec![RestoredVfioConfig { id: "dev0".to_owned(), fd: Some(-1) }]);
    let mut iommufd_fd = Some(-1);
    assert_eq!(
        restore_ingest_scm_rights(&mut external_fds, &mut net_fds, &mut vfio_fds, &mut iommufd_fd, vec![10, 11, 12, 13]),
        Ok(())
    );
    assert_eq!(net_fds, None);
    assert_eq!(vfio_fds, None);
    assert_eq!(iommufd_fd, None);
    assert_eq!(
        external_fds,
        ExternalFds::from_entries(vec![
            ExternalFdsEntry::new(net_target("net0"), vec![10, 11]),
            ExternalFdsEntry::new(ExternalFdTarget::Vfio { id: "dev0".to_owned() }, vec![12]),
            ExternalFdsEntry::new(ExternalFdTarget::Iommu, vec![13]),
        ])
    );
}

#[test]
fn test_receive_migration_ingest() {
    let mut external_fds = ExternalFds::from_entries(vec![ExternalFdsEntry::new(net_target("n"), vec![-1])]);
    let mut vfio_fds = None;
    let mut iommufd_fd = Some(-1);
    assert_eq!(
        receive_migration_ingest_scm_rights(&mut external_fds, &mut vfio_fds, &mut iommufd_fd, vec![5]),
        Err(IngestScmRightsError::TooLittleFds)
    );
}

#[test]
fn test_update_fds_iommu_errors() {
    let vfio = |id: &str| ExternalFdTarget::Vfio { id: id.to_owned() };

    let mut config = vm_config_with_nets(None);
    config.devices = Some(vec![DeviceConfig::parse("path=/dev/vfio/dev,id=dev0").unwrap()]);
    let fds = ExternalFds::from_entries(vec![ExternalFdsEntry::new(vfio("dev0"), vec![7])]);
    assert_eq!(
        config.validate_fds(&fds, ExternalFdOperation::Restore),
        Err(FdUpdateError::VfioFdsWithoutIommuFd)
    );

    let mut config = vm_config_with_nets(None);
    config.platform = Some(PlatformConfig::parse("iommufd=on").unwrap());
    let fds = ExternalFds::from_entries(vec![ExternalFdsEntry::new(ExternalFdTarget::Iommu, vec![9])]);
    assert_eq!(
        config.validate_fds(&fds, ExternalFdOperation::Restore),
        Err(FdUpdateError::IommuFdWithoutVfioFds)
    );

    let mut config = vm_config_with_nets(None);
    config.platform = Some(PlatformConfig::parse("iommufd=off").unwrap());
    let fds = ExternalFds::from_entries(vec![ExternalFdsEntry::new(ExternalFdTarget::Iommu, vec![9])]);
    assert_eq!(
        config.validate_fds(&fds, ExternalFdOperation::Restore),
        Err(FdUpdateError::IommufdFdRequiresIommufd)
    );

    let mut config = vm_config_with_nets(None);
    config.platform = Some(PlatformConfig::parse("iommufd=on").unwrap());
    config.devices = Some(vec![DeviceConfig::parse("path=/dev/vfio/dev,id=dev0").unwrap()]);
    let fds = ExternalFds::from_entries(vec![
        ExternalFdsEntry::new(vfio("dev0"), vec![7]),
        ExternalFdsEntry::new(ExternalFdTarget::Iommu, vec![9]),
    ]);
    assert_eq!(config.update_fds(fds, ExternalFdOperation::Restore), Ok(()));
    assert_eq!(config.devices.as_ref().unwrap()[0].fd, Some(7));
    assert_eq!(config.platform.as_ref().unwrap().iommufd_fd, Some(9));
}
