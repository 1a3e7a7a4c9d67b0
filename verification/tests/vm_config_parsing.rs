use vmm_config::vm_config::balloon::BalloonConfig;
use vmm_config::vm_config::console::{
    CommonConsoleConfig, ConsoleConfig, ConsoleOutputMode, DebugConsoleConfig, SerialConfig,
};
use vmm_config::vm_config::devices::UserDeviceConfig;
use vmm_config::api::vm_restore::{MemoryRestoreMode, ParseRestoreError, RestoreConfig, RestoredNetConfig};
use vmm_config::error::Error;
use vmm_config::vm_config::devices::{power_of_two, IvshmemConfig};
use vmm_config::vm_config::fs::FsConfig;
use vmm_config::vm_config::memory::{HotplugMethod, MemoryConfig, MemoryZoneConfig};
use vmm_config::vm_config::payload::{FwCfgConfig, FwCfgItem, FwCfgItemList};
use vmm_config::vm_config::platform::PlatformConfig;
use vmm_config::vm_config::rng::RngConfig;
use vmm_config::vm_config::PciDeviceCommonConfig;

#[test]
fn test_parse_balloon() {
    assert_eq!(
        BalloonConfig::parse(
            "size=128M,deflate_on_oom=on,free_page_reporting=on,pci_segment=1,pci_device_id=7"
        )
        .unwrap(),
        BalloonConfig {
            pci_common: PciDeviceCommonConfig {
                pci_segment: 1,
                pci_device_id: Some(7),
                ..Default::default()
            },
            size: 128 << 20,
            deflate_on_oom: true,
            free_page_reporting: true,
        }
    );

    assert_eq!(
        BalloonConfig::parse("size=0,iommu=on").unwrap(),
        BalloonConfig {
            pci_common: PciDeviceCommonConfig {
                iommu: true,
                ..Default::default()
            },
            size: 0,
            deflate_on_oom: false,
            free_page_reporting: false,
        }
    );
}

#[test]
fn test_console_parsing() {
    let console_config = |mode, file: Option<&str>, socket: Option<&str>, iommu| ConsoleConfig {
        common: CommonConsoleConfig {
            file: file.map(|f| f.to_string()),
            mode,
            socket: socket.map(|s| s.to_string()),
        },
        pci_common: PciDeviceCommonConfig {
            iommu,
            ..Default::default()
        },
    };

    ConsoleConfig::parse("").unwrap_err();
    ConsoleConfig::parse("badmode").unwrap_err();
    assert_eq!(
        ConsoleConfig::parse("off").unwrap(),
        console_config(ConsoleOutputMode::Off, None, None, false)
    );
    assert_eq!(
        ConsoleConfig::parse("pty").unwrap(),
        console_config(ConsoleOutputMode::Pty, None, None, false)
    );
    assert_eq!(
        ConsoleConfig::parse("tty").unwrap(),
        console_config(ConsoleOutputMode::Tty, None, None, false)
    );
    assert_eq!(
        ConsoleConfig::parse("null").unwrap(),
        console_config(ConsoleOutputMode::Null, None, None, false)
    );
    assert_eq!(
        ConsoleConfig::parse("file=/tmp/console").unwrap(),
        console_config(ConsoleOutputMode::File, Some("/tmp/console"), None, false)
    );
    assert_eq!(
        ConsoleConfig::parse("null,iommu=on").unwrap(),
        console_config(ConsoleOutputMode::Null, None, None, true)
    );
    assert_eq!(
        ConsoleConfig::parse("file=/tmp/console,iommu=on").unwrap(),
        console_config(ConsoleOutputMode::File, Some("/tmp/console"), None, true)
    );
    assert_eq!(
        ConsoleConfig::parse("socket=/tmp/serial.sock,iommu=on").unwrap(),
        console_config(ConsoleOutputMode::Socket, None, Some("/tmp/serial.sock"), true)
    );
}

fn fs_fixture() -> FsConfig {
    FsConfig {
        pci_common: PciDeviceCommonConfig::default(),
        socket: "/tmp/sock".to_owned(),
        tag: "mytag".to_owned(),
        num_queues: 1,
        queue_size: 1024,
    }
}

#[test]
fn test_parse_fs() -> Result<(), Error> {
    // "tag" and "socket" must be supplied
    FsConfig::parse("").unwrap_err();
    FsConfig::parse("tag=mytag").unwrap_err();
    FsConfig::parse("socket=/tmp/sock").unwrap_err();
    assert_eq!(FsConfig::parse("tag=mytag,socket=/tmp/sock")?, fs_fixture());
    assert_eq!(
        FsConfig::parse("tag=mytag,socket=/tmp/sock,num_queues=4,queue_size=1024")?,
        FsConfig {
            num_queues: 4,
            queue_size: 1024,
            ..fs_fixture()
        }
    );
    Ok(())
}

#[test]
fn test_mem_zone_parsing() -> Result<(), Error> {
    // mergeable defaults to false
    assert_eq!(
        MemoryConfig::parse("size=0", Some(vec!["id=mem0,size=1G"]))?,
        MemoryConfig {
            size: 0,
            zones: Some(vec![MemoryZoneConfig {
                id: "mem0".to_string(),
                size: 1 << 30,
                ..Default::default()
            }]),
            ..Default::default()
        }
    );
    // mergeable=on
    assert_eq!(
        MemoryConfig::parse("size=0", Some(vec!["id=mem0,size=1G,mergeable=on"]))?,
        MemoryConfig {
            size: 0,
            zones: Some(vec![MemoryZoneConfig {
                id: "mem0".to_string(),
                size: 1 << 30,
                mergeable: true,
                ..Default::default()
            }]),
            ..Default::default()
        }
    );
    // mergeable=off is explicit false
    assert_eq!(
        MemoryConfig::parse("size=0", Some(vec!["id=mem0,size=1G,mergeable=off"]))?,
        MemoryConfig {
            size: 0,
            zones: Some(vec![MemoryZoneConfig {
                id: "mem0".to_string(),
                size: 1 << 30,
                mergeable: false,
                ..Default::default()
            }]),
            ..Default::default()
        }
    );
    // per-zone mergeable independent of global mergeable
    assert_eq!(
        MemoryConfig::parse(
            "size=1G,mergeable=off",
            Some(vec!["id=hotplug,size=0,hotplug_size=4G,mergeable=on"])
        )?,
        MemoryConfig {
            size: 1 << 30,
            mergeable: false,
            hotplug_method: HotplugMethod::Acpi,
            zones: Some(vec![MemoryZoneConfig {
                id: "hotplug".to_string(),
                size: 0,
                hotplug_size: Some(4 << 30),
                mergeable: true,
                ..Default::default()
            }]),
            ..Default::default()
        }
    );
    // global mergeable=on inherited by zone with no explicit mergeable
    assert_eq!(
        MemoryConfig::parse("size=0,mergeable=on", Some(vec!["id=mem0,size=1G"]))?,
        MemoryConfig {
            size: 0,
            mergeable: true,
            zones: Some(vec![MemoryZoneConfig {
                id: "mem0".to_string(),
                size: 1 << 30,
                mergeable: true,
                ..Default::default()
            }]),
            ..Default::default()
        }
    );
    // reserve=on on a zone
    assert_eq!(
        MemoryConfig::parse("size=0", Some(vec!["id=mem0,size=1G,reserve=on"]))?,
        MemoryConfig {
            size: 0,
            zones: Some(vec![MemoryZoneConfig {
                id: "mem0".to_string(),
                size: 1 << 30,
                reserve: true,
                ..Default::default()
            }]),
            ..Default::default()
        }
    );
    Ok(())
}

#[test]
fn test_mem_parsing() -> Result<(), Error> {
    assert_eq!(MemoryConfig::parse("", None)?, MemoryConfig::default());
    // Default string
    assert_eq!(MemoryConfig::parse("size=512M", None)?, MemoryConfig::default());
    assert_eq!(
        MemoryConfig::parse("size=512M,mergeable=on", None)?,
        MemoryConfig {
            size: 512 << 20,
            mergeable: true,
            ..Default::default()
        }
    );
    assert_eq!(
        MemoryConfig::parse("mergeable=on", None)?,
        MemoryConfig {
            mergeable: true,
            ..Default::default()
        }
    );
    assert_eq!(
        MemoryConfig::parse("size=1G,mergeable=off", None)?,
        MemoryConfig {
            size: 1 << 30,
            mergeable: false,
            ..Default::default()
        }
    );
    assert_eq!(
        MemoryConfig::parse("hotplug_method=acpi", None)?,
        MemoryConfig {
            ..Default::default()
        }
    );
    assert_eq!(
        MemoryConfig::parse("hotplug_method=acpi,hotplug_size=512M", None)?,
        MemoryConfig {
            hotplug_size: Some(512 << 20),
            ..Default::default()
        }
    );
    assert_eq!(
        MemoryConfig::parse("hotplug_method=virtio-mem,hotplug_size=512M", None)?,
        MemoryConfig {
            hotplug_size: Some(512 << 20),
            hotplug_method: HotplugMethod::VirtioMem,
            ..Default::default()
        }
    );
    assert_eq!(
        MemoryConfig::parse("hugepages=on,size=1G,hugepage_size=2M", None)?,
        MemoryConfig {
            hugepage_size: Some(2 << 20),
            size: 1 << 30,
            hugepages: true,
            ..Default::default()
        }
    );
    // reserve=on opts out of MAP_NORESERVE
    assert_eq!(
        MemoryConfig::parse("size=1G,hugepages=on,reserve=on", None)?,
        MemoryConfig {
            size: 1 << 30,
            hugepages: true,
            reserve: true,
            ..Default::default()
        }
    );
    Ok(())
}

#[test]
fn test_fw_cfg_config_item_list_parsing() -> Result<(), Error> {
    // Empty list
    FwCfgConfig::parse("items=[]").unwrap_err();
    // Missing closing bracket
    FwCfgConfig::parse("items=[name=opt/org.test/fw_cfg_test_item,file=/tmp/fw_cfg_test_item")
        .unwrap_err();
    // Single file Item
    assert_eq!(
        FwCfgConfig::parse("items=[name=opt/org.test/fw_cfg_test_item,file=/tmp/fw_cfg_test_item]")?,
        FwCfgConfig {
            items: Some(FwCfgItemList {
                item_list: vec![FwCfgItem {
                    name: "opt/org.test/fw_cfg_test_item".to_string(),
                    file: Some("/tmp/fw_cfg_test_item".to_string()),
                    string: None,
                }]
            }),
            ..Default::default()
        },
    );
    // Multiple file Items
    assert_eq!(
        FwCfgConfig::parse(
            "items=[name=opt/org.test/fw_cfg_test_item,file=/tmp/fw_cfg_test_item:name=opt/org.test/fw_cfg_test_item2,file=/tmp/fw_cfg_test_item2]"
        )?,
        FwCfgConfig {
            items: Some(FwCfgItemList {
                item_list: vec![
                    FwCfgItem {
                        name: "opt/org.test/fw_cfg_test_item".to_string(),
                        file: Some("/tmp/fw_cfg_test_item".to_string()),
                        string: None,
                    },
                    FwCfgItem {
                        name: "opt/org.test/fw_cfg_test_item2".to_string(),
                        file: Some("/tmp/fw_cfg_test_item2".to_string()),
                        string: None,
                    }
                ]
            }),
            ..Default::default()
        },
    );
    // Single string Item (for OVMF MMIO64 config, GPU CC passthrough, etc.)
    assert_eq!(
        FwCfgConfig::parse("items=[name=opt/ovmf/X-PciMmio64Mb,string=262144]")?,
        FwCfgConfig {
            items: Some(FwCfgItemList {
                item_list: vec![FwCfgItem {
                    name: "opt/ovmf/X-PciMmio64Mb".to_string(),
                    file: None,
                    string: Some("262144".to_string()),
                }]
            }),
            ..Default::default()
        },
    );
    // Mixed file and string Items
    assert_eq!(
        FwCfgConfig::parse(
            "items=[name=opt/org.test/fw_cfg_test_item,file=/tmp/fw_cfg_test_item:name=opt/ovmf/X-PciMmio64Mb,string=262144]"
        )?,
        FwCfgConfig {
            items: Some(FwCfgItemList {
                item_list: vec![
                    FwCfgItem {
                        name: "opt/org.test/fw_cfg_test_item".to_string(),
                        file: Some("/tmp/fw_cfg_test_item".to_string()),
                        string: None,
                    },
                    FwCfgItem {
                        name: "opt/ovmf/X-PciMmio64Mb".to_string(),
                        file: None,
                        string: Some("262144".to_string()),
                    }
                ]
            }),
            ..Default::default()
        },
    );
    // Missing both file and string parses OK but fails validation
    let missing_content = FwCfgConfig::parse("items=[name=opt/org.test/missing_content]").unwrap();
    assert_eq!(missing_content.items.as_ref().unwrap().item_list[0].file, None);
    assert_eq!(missing_content.items.as_ref().unwrap().item_list[0].string, None);
    // Both file and string parses OK but fails validation
    let both = FwCfgConfig::parse("items=[name=opt/org.test/both,file=/tmp/test,string=test]").unwrap();
    assert!(both.items.as_ref().unwrap().item_list[0].file.is_some());
    assert!(both.items.as_ref().unwrap().item_list[0].string.is_some());
    Ok(())
}

#[test]
fn test_platform_iommufd_fd_parsing() -> Result<(), Error> {
    // `iommufd_fd=N` alone implies `iommufd=on`.
    let p = PlatformConfig::parse("iommufd_fd=42")?;
    assert!(p.iommufd);
    assert_eq!(p.iommufd_fd, Some(42));

    // Explicit `iommufd=on,iommufd_fd=N` is the same.
    let p = PlatformConfig::parse("iommufd=on,iommufd_fd=42")?;
    assert!(p.iommufd);
    assert_eq!(p.iommufd_fd, Some(42));

    // No flags → both default to off.
    let p = PlatformConfig::parse("")?;
    assert!(!p.iommufd);
    assert_eq!(p.iommufd_fd, None);

    Ok(())
}

#[test]
fn test_parse_rng() -> Result<(), Error> {
    assert_eq!(RngConfig::parse("")?, RngConfig::default());
    assert_eq!(
        RngConfig::parse("src=/dev/random")?,
        RngConfig {
            src: "/dev/random".to_string(),
            ..Default::default()
        }
    );
    assert_eq!(
        RngConfig::parse("src=/dev/random,iommu=on,pci_segment=1,pci_device_id=7")?,
        RngConfig {
            src: "/dev/random".to_string(),
            pci_common: PciDeviceCommonConfig {
                id: None,
                iommu: true,
                pci_segment: 1,
                pci_device_id: Some(7),
            },
        }
    );
    assert_eq!(
        RngConfig::parse("iommu=on")?,
        RngConfig {
            pci_common: PciDeviceCommonConfig {
                id: None,
                iommu: true,
                pci_segment: 0,
                pci_device_id: None,
            },
            ..Default::default()
        }
    );
    Ok(())
}

#[test]
fn test_restore_parsing() -> Result<(), ParseRestoreError> {
    assert_eq!(
        RestoreConfig::parse("source_url=/path/to/snapshot")?,
        RestoreConfig {
            source_url: "/path/to/snapshot".to_string(),
            prefault: false,
            memory_restore_mode: MemoryRestoreMode::Copy,
            net_fds: None,
            resume: false,
        }
    );
    assert_eq!(
        RestoreConfig::parse(
            "source_url=/path/to/snapshot,prefault=off,net_fds=[net0@[3,4],net1@[5,6,7,8]]"
        )?,
        RestoreConfig {
            source_url: "/path/to/snapshot".to_string(),
            prefault: false,
            memory_restore_mode: MemoryRestoreMode::Copy,
            net_fds: Some(vec![
                RestoredNetConfig {
                    id: "net0".to_string(),
                    num_fds: 2,
                    fds: Some(vec![3, 4]),
                },
                RestoredNetConfig {
                    id: "net1".to_string(),
                    num_fds: 4,
                    fds: Some(vec![5, 6, 7, 8]),
                }
            ]),
            resume: false,
        }
    );
    assert_eq!(
        RestoreConfig::parse("source_url=/path/to/snapshot,memory_restore_mode=ondemand")?,
        RestoreConfig {
            source_url: "/path/to/snapshot".to_string(),
            prefault: false,
            memory_restore_mode: MemoryRestoreMode::OnDemand,
            net_fds: None,
            resume: false,
        }
    );
    assert_eq!(
        RestoreConfig::parse("source_url=/path/to/snapshot,resume=on")?,
        RestoreConfig {
            source_url: "/path/to/snapshot".to_string(),
            prefault: false,
            memory_restore_mode: MemoryRestoreMode::Copy,
            net_fds: None,
            resume: true,
        }
    );
    // Parsing should fail as source_url is a required field
    RestoreConfig::parse("prefault=off").unwrap_err();
    RestoreConfig::parse("source_url=/path/to/snapshot,memory_restore_mode=bogus").unwrap_err();
    Ok(())
}

#[test]
fn test_platform_aliases_and_iommufd() {
    let p = PlatformConfig::parse("serial_number=A,system_serial_number=B").unwrap();
    assert_eq!(p.system_serial_number, Some("B".to_owned()));
    let p = PlatformConfig::parse("uuid=U").unwrap();
    assert_eq!(p.system_uuid, Some("U".to_owned()));
    let p = PlatformConfig::parse("iommufd=off,iommufd_fd=42").unwrap();
    assert!(!p.iommufd);
    assert_eq!(p.iommufd_fd, Some(42));
    let p = PlatformConfig::parse("").unwrap();
    assert!(!p.iommufd);
    assert_eq!(p.iommufd_fd, None);
    assert_eq!(p.num_pci_segments, 1);
    assert!(p.vfio_p2p_dma);
}

#[test]
fn test_debug_console_iobase() {
    assert_eq!(DebugConsoleConfig::parse("tty,iobase=0xe9").unwrap().iobase, Some(0xe9));
    assert_eq!(DebugConsoleConfig::parse("tty").unwrap().iobase, None);
    assert!(DebugConsoleConfig::parse("tty,iobase=e9").is_err());
}

#[test]
fn test_ivshmem_size_must_be_a_power_of_two() {
    assert_eq!(IvshmemConfig::parse("path=/dev/shm/ivshmem").unwrap().size, 128 << 20);
    assert_eq!(IvshmemConfig::parse("path=/x,size=4M").unwrap().size, 4 << 20);
    assert_eq!(
        IvshmemConfig::parse("path=/x,size=3M"),
        Err(Error::ParseIvshmemSizeNotPowerOfTwo(3 << 20))
    );
    assert_eq!(IvshmemConfig::parse("size=4M"), Err(Error::ParseIvshmemPathMissing));
    assert!(power_of_two(1) && power_of_two(1 << 40) && !power_of_two(0) && !power_of_two(6));
}

#[test]
fn test_fw_cfg_parse_checked() {
    assert!(FwCfgConfig::parse_checked("items=").is_none());
    assert_eq!(FwCfgConfig::parse_checked("e820=off").unwrap().unwrap().e820, false);
}

#[test]
fn test_memory_zones_in_order_with_defaults() {
    let m = MemoryConfig::parse("size=2G,mergeable=on", Some(vec!["id=mem0,size=1G", "id=mem1,mergeable=off"])).unwrap();
    let zones = m.zones.unwrap();
    assert_eq!(zones.len(), 2);
    assert_eq!(zones[0].id, "mem0");
    assert_eq!(zones[0].size, 1 << 30);
    assert!(zones[0].mergeable);
    assert_eq!(zones[1].id, "mem1");
    assert_eq!(zones[1].size, 512 << 20);
    assert!(!zones[1].mergeable);
    assert_eq!(MemoryConfig::parse("size=1G", None).unwrap().zones, None);
    assert_eq!(
        MemoryConfig::parse("size=1G", Some(vec!["id=mem0", "size=1G", "id=mem2,size=x"])),
        Err(Error::ParseMemoryZoneIdMissing)
    );
}

#[test]
fn test_serial_mode_order_and_paths() {
    let s = SerialConfig::parse("tty,file=/tmp/log").unwrap();
    assert_eq!(s.common.mode, ConsoleOutputMode::Tty);
    assert_eq!(s.common.file, None);
    let s = SerialConfig::parse("file=/tmp/log").unwrap();
    assert_eq!(s.common.mode, ConsoleOutputMode::File);
    assert_eq!(s.common.file, Some("/tmp/log".to_owned()));
    let s = SerialConfig::parse("socket=/tmp/sock").unwrap();
    assert_eq!(s.common.mode, ConsoleOutputMode::Socket);
    assert_eq!(s.common.socket, Some("/tmp/sock".to_owned()));
    assert_eq!(SerialConfig::parse(""), Err(Error::ParseConsoleInvalidModeGiven));
}

#[test]
fn test_user_device_takes_no_iommu_and_needs_socket() {
    let u = UserDeviceConfig::parse("socket=/tmp/s,id=u0").unwrap();
    assert_eq!(u.socket, "/tmp/s");
    assert!(!u.pci_common.iommu);
    assert!(matches!(UserDeviceConfig::parse("socket=/tmp/s,iommu=on"), Err(Error::ParseUserDevice(_))));
    assert_eq!(UserDeviceConfig::parse("id=u0"), Err(Error::ParseUserDeviceSocketMissing));
}
