use vmm_config::error::Error;
use vmm_config::vm_config::cpus::{CoreScheduling, CpuAffinity, CpuTopology, CpusConfig};
use vmm_config::vm_config::net::{NetConfig, VhostMode};
use vmm_config::vm_config::net_addr::{IpAddr, MacAddr};
use vmm_config::vm_config::PciDeviceCommonConfig;

#[test]
fn test_cpu_parsing() -> Result<(), Error> {
    assert_eq!(CpusConfig::parse("")?, CpusConfig::default());

    assert_eq!(
        CpusConfig::parse("boot=1")?,
        CpusConfig {
            boot_vcpus: 1,
            max_vcpus: 1,
            ..Default::default()
        }
    );
    assert_eq!(
        CpusConfig::parse("boot=1,max=2")?,
        CpusConfig {
            boot_vcpus: 1,
            max_vcpus: 2,
            ..Default::default()
        }
    );
    assert_eq!(
        CpusConfig::parse("boot=8,topology=2:2:1:2")?,
        CpusConfig {
            boot_vcpus: 8,
            max_vcpus: 8,
            topology: Some(CpuTopology {
                threads_per_core: 2,
                cores_per_die: 2,
                dies_per_package: 1,
                packages: 2
            }),
            ..Default::default()
        }
    );

    CpusConfig::parse("boot=8,topology=2:2:1").unwrap_err();
    CpusConfig::parse("boot=8,topology=2:2:1:x").unwrap_err();
    assert_eq!(
        CpusConfig::parse("boot=1,kvm_hyperv=on")?,
        CpusConfig {
            boot_vcpus: 1,
            max_vcpus: 1,
            kvm_hyperv: true,
            ..Default::default()
        }
    );
    assert_eq!(
        CpusConfig::parse("boot=2,affinity=[0@[0,2],1@[1,3]]")?,
        CpusConfig {
            boot_vcpus: 2,
            max_vcpus: 2,
            affinity: Some(vec![
                CpuAffinity {
                    vcpu: 0,
                    host_cpus: vec![0, 2],
                },
                CpuAffinity {
                    vcpu: 1,
                    host_cpus: vec![1, 3],
                }
            ]),
            ..Default::default()
        },
    );

    // Test core_scheduling parsing
    assert_eq!(
        CpusConfig::parse("boot=1,core_scheduling=vm")?,
        CpusConfig {
            boot_vcpus: 1,
            max_vcpus: 1,
            core_scheduling: CoreScheduling::Vm,
            ..Default::default()
        }
    );
    assert_eq!(
        CpusConfig::parse("boot=1,core_scheduling=vcpu")?,
        CpusConfig {
            boot_vcpus: 1,
            max_vcpus: 1,
            core_scheduling: CoreScheduling::Vcpu,
            ..Default::default()
        }
    );
    assert_eq!(
        CpusConfig::parse("boot=1,core_scheduling=off")?,
        CpusConfig {
            boot_vcpus: 1,
            max_vcpus: 1,
            core_scheduling: CoreScheduling::Off,
            ..Default::default()
        }
    );
    // Default (no core_scheduling specified) should be Vm
    assert_eq!(
        CpusConfig::parse("boot=1")?.core_scheduling,
        CoreScheduling::Vm
    );
    // Invalid value should error
    CpusConfig::parse("boot=1,core_scheduling=invalid").unwrap_err();

    Ok(())
}

fn mac(s: &str) -> MacAddr {
    MacAddr::parse_str(s).unwrap()
}

// The MAC address that the parser falls back on; every case below gives
// its own.
fn fallback_mac() -> MacAddr {
    MacAddr { bytes: [0x52, 0x54, 0x00, 0x01, 0x02, 0x03] }
}

fn net_fixture() -> NetConfig {
    NetConfig {
        pci_common: PciDeviceCommonConfig::default(),
        tap: None,
        ip: None,
        mask: None,
        mac: mac("de:ad:be:ef:12:34"),
        host_mac: Some(mac("12:34:de:ad:be:ef")),
        mtu: None,
        num_queues: 2,
        queue_size: 256,
        vhost_user: false,
        vhost_socket: None,
        vhost_mode: VhostMode::Client,
        fds: None,
        rate_limiter_config: None,
        offload_tso: true,
        offload_ufo: true,
        offload_csum: true,
    }
}

#[test]
fn test_net_parsing() -> Result<(), Error> {
    assert_eq!(
        NetConfig::parse("mac=de:ad:be:ef:12:34,host_mac=12:34:de:ad:be:ef", fallback_mac())?,
        net_fixture(),
    );

    assert_eq!(
        NetConfig::parse("mac=de:ad:be:ef:12:34,host_mac=12:34:de:ad:be:ef,id=mynet0", fallback_mac())?,
        NetConfig {
            pci_common: PciDeviceCommonConfig {
                id: Some("mynet0".to_owned()),
                ..Default::default()
            },
            ..net_fixture()
        }
    );

    assert_eq!(
        NetConfig::parse(
            "mac=de:ad:be:ef:12:34,host_mac=12:34:de:ad:be:ef,tap=tap0,ip=192.168.100.1,mask=255.255.255.128",
            fallback_mac(),
        )?,
        NetConfig {
            tap: Some("tap0".to_owned()),
            ip: Some(IpAddr::from_str("192.168.100.1").unwrap()),
            mask: Some(IpAddr::from_str("255.255.255.128").unwrap()),
            ..net_fixture()
        }
    );

    assert_eq!(
        NetConfig::parse(
            "mac=de:ad:be:ef:12:34,host_mac=12:34:de:ad:be:ef,vhost_user=true,socket=/tmp/sock",
            fallback_mac(),
        )?,
        NetConfig {
            vhost_user: true,
            vhost_socket: Some("/tmp/sock".to_owned()),
            ..net_fixture()
        }
    );

    assert_eq!(
        NetConfig::parse(
            "mac=de:ad:be:ef:12:34,host_mac=12:34:de:ad:be:ef,num_queues=4,queue_size=1024,iommu=on",
            fallback_mac(),
        )?,
        NetConfig {
            pci_common: PciDeviceCommonConfig {
                iommu: true,
                ..Default::default()
            },
            num_queues: 4,
            queue_size: 1024,
            ..net_fixture()
        }
    );

    assert_eq!(
        NetConfig::parse("mac=de:ad:be:ef:12:34,fd=[3,7],num_queues=4", fallback_mac())?,
        NetConfig {
            host_mac: None,
            fds: Some(vec![3, 7]),
            num_queues: 4,
            ..net_fixture()
        }
    );

    assert_eq!(
        NetConfig::parse("mac=de:ad:be:ef:12:34,mask=255.255.255.0", fallback_mac())?,
        NetConfig {
            mask: Some(IpAddr::from_str("255.255.255.0").unwrap()),
            host_mac: None,
            ..net_fixture()
        }
    );

    Ok(())
}

#[test]
fn test_net_parsing_without_mac_takes_the_fallback() -> Result<(), Error> {
    let parsed = NetConfig::parse("tap=tap0", fallback_mac())?;
    assert_eq!(parsed.mac, fallback_mac());
    assert_eq!(parsed.ip, None);
    Ok(())
}

#[test]
fn test_ip_addresses() {
    assert_eq!(IpAddr::from_str("192.168.100.1"), Some(IpAddr::V4([192, 168, 100, 1])));
    assert_eq!(IpAddr::from_str("::1"), Some(IpAddr::V6([0, 0, 0, 0, 0, 0, 0, 1])));
    assert_eq!(
        IpAddr::from_str("2001:db8::8:1"),
        Some(IpAddr::V6([0x2001, 0xdb8, 0, 0, 0, 0, 8, 1]))
    );
    assert_eq!(
        IpAddr::from_str("::ffff:192.168.1.2"),
        Some(IpAddr::V6([0, 0, 0, 0, 0, 0xffff, 0xc0a8, 0x0102]))
    );
    assert_eq!(IpAddr::from_str("256.1.1.1"), None);
    assert_eq!(IpAddr::from_str("1.2.3"), None);
    assert_eq!(IpAddr::from_str("1::2::3"), None);
}

#[test]
fn test_mac_addresses() {
    assert_eq!(mac("de:ad:be:ef:12:34").bytes, [0xde, 0xad, 0xbe, 0xef, 0x12, 0x34]);
    assert_eq!(
        MacAddr::parse_str("de:ad:be:ef:12"),
        Err("parsing of de:ad:be:ef:12 into a MAC address failed".to_owned())
    );
    assert!(MacAddr::parse_str("de:ad:be:ef:12:zz").is_err());
}

#[test]
fn test_local_random_mac() {
    let mac = MacAddr::local_random([0xff, 1, 2, 3, 4, 5]);
    assert_eq!(mac.bytes, [0x2e, 1, 2, 3, 4, 5]);
}
