use vmm_config::api::vm_migration as api;
use vmm_config::api::vm_migration::TimeoutStrategy;
use vmm_config::migration::locations::dir_verdict;
use vmm_config::migration::tls::{tls_dir_verdict, TlsDirError, TlsEndpoint};
use vmm_config::migration::transport::{tcp_address_to_server_name, TcpAddressParseError};
use vmm_config::migration::{
    url_to_path, MigratableError,
    MigrationMode, VmReceiveMigrationData, VmReceiveMigrationDataValidationError,
    VmSendMigrationConfigError, VmSendMigrationData,
};

#[test]
fn test_vm_send_migration_data_validate() {
    // Invalid destination URL scheme is rejected
    assert!(matches!(
        VmSendMigrationData::try_from(
            api::VmSendMigrationData::parse("destination_url=tcp:192.168.1.1").unwrap()
        )
        .unwrap_err(),
        VmSendMigrationConfigError::InvalidDestinationUrl(TcpAddressParseError::MissingPort)
    ));
    assert!(matches!(
        VmSendMigrationData::try_from(
            api::VmSendMigrationData::parse("destination_url=tcp:[2001:db8::1]").unwrap()
        )
        .unwrap_err(),
        VmSendMigrationConfigError::InvalidDestinationUrl(
            TcpAddressParseError::MissingPortSeparatorAfterBracketedHost
        )
    ));

    // Excessive numbers of parallel connections are rejected
    let _data = VmSendMigrationData {
        destination_url: "tcp:192.168.1.1:8080".to_string(),
        local: false,
        downtime_ms: 10,
        timeout_s: 10,
        timeout_strategy: Default::default(),
        connections: 129,
        tls_dir: None,
        memory_mode: Default::default(),
    }
    .validate()
    .expect_err("too many connections should be rejected");
    // memory_mode=postcopy + local must be rejected.
    VmSendMigrationData {
        destination_url: "unix:/tmp/sock".to_string(),
        local: true,
        downtime_ms: 10,
        timeout_s: 10,
        timeout_strategy: Default::default(),
        connections: 1,
        tls_dir: None,
        memory_mode: MigrationMode::Postcopy,
    }
    .validate()
    .unwrap_err();
    // memory_mode=postcopy + multi-connection must be rejected.
    VmSendMigrationData {
        destination_url: "tcp:192.168.1.1:8080".to_string(),
        local: false,
        downtime_ms: 10,
        timeout_s: 10,
        timeout_strategy: Default::default(),
        connections: 4,
        tls_dir: None,
        memory_mode: MigrationMode::Postcopy,
    }
    .validate()
    .unwrap_err();
}

#[test]
fn test_vm_receive_migration_data_validate() {
    // A directory that lacks the TLS files.
    VmReceiveMigrationData {
        receiver_url: "tcp:192.168.1.1:8080".to_string(),
        tls_dir: Some("/".to_owned()),
        memory_mode: Default::default(),
    }
    .validate()
    .unwrap_err();

    assert_eq!(
        VmReceiveMigrationData::try_from(api::VmReceiveMigrationData {
            receiver_url: "file:///tmp/migration".to_owned(),
            tls_dir: None,
            memory_mode: Default::default(),
        })
        .unwrap_err(),
        VmReceiveMigrationDataValidationError::ValidationError(
            "receiver_url must use tcp:<host>:<port> or unix:<path>.".to_owned()
        )
    );

    assert_eq!(
        VmReceiveMigrationData {
            receiver_url: "tcp:192.168.1.1".to_owned(),
            ..Default::default()
        }
        .validate(),
        Err(VmReceiveMigrationDataValidationError::ValidationError(
            "receiver_url must use tcp:<host>:<port> or unix:<path>: Missing TCP port.".to_owned()
        ))
    );

    assert_eq!(
        VmReceiveMigrationData {
            receiver_url: "tcp:[2001:db8::1]".to_owned(),
            ..Default::default()
        }
        .validate(),
        Err(VmReceiveMigrationDataValidationError::ValidationError(
            "receiver_url must use tcp:<host>:<port> or unix:<path>: Missing port separator after bracketed host."
                .to_owned()
        ))
    );

    assert_eq!(
        VmReceiveMigrationData {
            receiver_url: "unix:/tmp/sock".to_owned(),
            tls_dir: Some("/tmp".to_owned()),
            ..Default::default()
        }
        .validate(),
        Err(VmReceiveMigrationDataValidationError::ValidationError(
            "UNIX sockets and TLS encryption cannot be used at the same time.".to_owned()
        ))
    );
}

#[test]
fn test_vm_receive_migration_data_parse() {
    let data = api::VmReceiveMigrationData::parse("receiver_url=tcp:192.168.1.1:8080").unwrap();
    assert_eq!(
        data,
        api::VmReceiveMigrationData {
            receiver_url: "tcp:192.168.1.1:8080".to_string(),
            tls_dir: None,
            memory_mode: MigrationMode::Precopy,
        }
    );

    let data = api::VmReceiveMigrationData::parse("receiver_url=tcp:[2001:db8::1]:8080").unwrap();
    assert_eq!(data.receiver_url, "tcp:[2001:db8::1]:8080");

    let data =
        api::VmReceiveMigrationData::parse("receiver_url=tcp:destination.example:8080").unwrap();
    assert_eq!(data.receiver_url, "tcp:destination.example:8080");

    let data = api::VmReceiveMigrationData::parse("receiver_url=unix:/tmp/ch=migrate.sock").unwrap();
    assert_eq!(data.receiver_url, "unix:/tmp/ch=migrate.sock");

    let tls_dir_path = "/tmp/receive-tls".to_owned();
    let data = api::VmReceiveMigrationData::parse(&format!(
        "receiver_url=tcp:192.168.1.1:8080,tls_dir={}",
        tls_dir_path
    ))
    .unwrap();
    assert_eq!(
        data,
        api::VmReceiveMigrationData {
            receiver_url: "tcp:192.168.1.1:8080".to_string(),
            tls_dir: Some(tls_dir_path),
            memory_mode: MigrationMode::Precopy,
        }
    );

    // memory_mode defaults to precopy when not specified.
    let data = api::VmReceiveMigrationData::parse("receiver_url=tcp:127.0.0.1:1234").unwrap();
    assert_eq!(
        data,
        api::VmReceiveMigrationData {
            receiver_url: "tcp:127.0.0.1:1234".to_string(),
            tls_dir: None,
            memory_mode: MigrationMode::Precopy,
        }
    );

    // Explicit receiver_url with memory_mode=postcopy.
    let data =
        api::VmReceiveMigrationData::parse("receiver_url=unix:/tmp/sock,memory_mode=postcopy")
            .unwrap();
    assert_eq!(
        data,
        api::VmReceiveMigrationData {
            receiver_url: "unix:/tmp/sock".to_string(),
            tls_dir: None,
            memory_mode: MigrationMode::Postcopy,
        }
    );

    // Missing receiver_url in keyed form must fail.
    api::VmReceiveMigrationData::parse("memory_mode=postcopy").unwrap_err();
}

#[test]
fn test_vm_send_migration_data_parse() {
    // Fully specified
    let data = api::VmSendMigrationData::parse(
        "destination_url=unix:/tmp/migrate.sock,local=on,downtime_ms=200,timeout_s=3600,timeout_strategy=cancel"
    ).expect("valid migration string should parse");
    assert_eq!(data.destination_url, "unix:/tmp/migrate.sock");
    assert!(data.local);
    assert_eq!(data.downtime_ms, 200);
    assert_eq!(data.timeout_s, 3600);
    assert_eq!(data.timeout_strategy, TimeoutStrategy::Cancel);
    assert_eq!(data.connections, 1);

    // Defaults applied when optional fields are omitted
    let data = api::VmSendMigrationData::parse("destination_url=tcp:192.168.1.1:8080")
        .expect("minimal migration string should parse");
    assert_eq!(data.destination_url, "tcp:192.168.1.1:8080");
    assert!(!data.local);
    assert_eq!(data.downtime_ms, api::VmSendMigrationData::default_downtime_ms());
    assert_eq!(data.timeout_s, api::VmSendMigrationData::default_timeout_s());
    assert_eq!(data.timeout_strategy, TimeoutStrategy::default());
    assert_eq!(data.connections, api::VmSendMigrationData::default_connections());

    let data = api::VmSendMigrationData::parse("destination_url=tcp:[2001:db8::1]:8080")
        .expect("IPv6 migration string should parse");
    assert_eq!(data.destination_url, "tcp:[2001:db8::1]:8080");

    let data = api::VmSendMigrationData::parse("destination_url=tcp:destination.example:8080")
        .expect("hostname migration string should parse");
    assert_eq!(data.destination_url, "tcp:destination.example:8080");

    // Missing destination_url is an error
    api::VmSendMigrationData::parse("local=on,downtime_ms=200").unwrap_err();

    // Zero downtime_ms is rejected
    let _data =
        api::VmSendMigrationData::parse("destination_url=tcp:192.168.1.1:8080,downtime_ms=0")
            .expect_err("zero downtime_ms should be rejected");

    // Zero timeout_s is rejected
    let _data = api::VmSendMigrationData::parse("destination_url=unix:/tmp/sock,timeout_s=0")
        .expect_err("zero timeout_s should be rejected");

    // Zero connections is rejected
    let _data =
        api::VmSendMigrationData::parse("destination_url=tcp:192.168.1.1:8080,connections=0")
            .expect_err("zero connections should be rejected");

    // Unknown option is an error
    api::VmSendMigrationData::parse("destination_url=unix:/tmp/sock,unknown_field=foo").unwrap_err();

    // Invalid toggle value is an error
    api::VmSendMigrationData::parse("destination_url=unix:/tmp/sock,local=yes").unwrap_err();

    // Timeout strategy
    let _data = api::VmSendMigrationData::parse(
        "destination_url=tcp:192.168.1.1:8080,timeout_strategy=invalid",
    )
    .expect_err("invalid timeout strategy should be rejected");

    // Local migration requires a UNIX socket destination
    api::VmSendMigrationData::parse("destination_url=tcp:192.168.1.1:8080,local=yes").unwrap_err();

    // Local migration cannot use multiple connections
    api::VmSendMigrationData::parse("destination_url=unix:/tmp/sock,local=yes,connections=2")
        .unwrap_err();

    // Happy path with some defaults
    let data =
        api::VmSendMigrationData::parse("destination_url=tcp:192.168.1.1:8080,downtime_ms=150")
            .unwrap();
    assert_eq!(
        data,
        api::VmSendMigrationData {
            destination_url: "tcp:192.168.1.1:8080".to_string(),
            local: false,
            downtime_ms: 150,
            timeout_s: api::VmSendMigrationData::default_timeout_s(),
            timeout_strategy: Default::default(),
            connections: api::VmSendMigrationData::default_connections(),
            tls_dir: None,
            memory_mode: MigrationMode::Precopy,
        }
    );

    // Happy path, fully specified
    let tls_dir_path = "/tmp/send-tls".to_owned();
    let data =
        api::VmSendMigrationData::parse(&format!("destination_url=tcp:192.168.1.1:8080,downtime_ms=150,timeout_s=900,timeout_strategy=ignore,connections=4,tls_dir={}", tls_dir_path))
            .unwrap();
    assert_eq!(
        data,
        api::VmSendMigrationData {
            destination_url: "tcp:192.168.1.1:8080".to_string(),
            local: false,
            downtime_ms: 150,
            timeout_s: 900,
            timeout_strategy: TimeoutStrategy::Ignore,
            connections: 4,
            tls_dir: Some(tls_dir_path),
            memory_mode: MigrationMode::Precopy,
        }
    );

    // Postcopy happy path (TCP only, single connection).
    let data =
        api::VmSendMigrationData::parse("destination_url=tcp:192.168.1.1:8080,memory_mode=postcopy")
            .unwrap();
    assert_eq!(data.memory_mode, MigrationMode::Postcopy);
}

#[test]
fn test_migration_mode_and_timeout_strategy_names() {
    assert_eq!(MigrationMode::from_str("PostCopy"), Ok(MigrationMode::Postcopy));
    assert_eq!(MigrationMode::from_str("precopy"), Ok(MigrationMode::Precopy));
    assert!(MigrationMode::from_str("copy").is_err());
    assert_eq!(TimeoutStrategy::from_str("IGNORE"), Ok(TimeoutStrategy::Ignore));
    assert!(TimeoutStrategy::from_str("abort").is_err());
}

#[test]
fn test_send_validate_accepts_a_good_migration() {
    let data = VmSendMigrationData {
        destination_url: "tcp:192.168.1.1:8080".to_string(),
        local: false,
        downtime_ms: 10,
        timeout_s: 10,
        timeout_strategy: Default::default(),
        connections: 128,
        tls_dir: None,
        memory_mode: Default::default(),
    };
    assert!(data.validate().is_ok());
    assert_eq!(data.downtime(), std::time::Duration::from_millis(10));
    assert_eq!(data.timeout(), std::time::Duration::from_secs(10));
}

#[test]
fn test_tcp_addresses() {
    assert_eq!(tcp_address_to_server_name("192.168.1.1:8080"), Ok("192.168.1.1".to_owned()));
    assert_eq!(tcp_address_to_server_name("[2001:db8::1]:8080"), Ok("2001:db8::1".to_owned()));
    assert_eq!(tcp_address_to_server_name("[2001:db8::1:8080"), Err(TcpAddressParseError::MissingClosingBracket));
    assert_eq!(tcp_address_to_server_name(":8080"), Err(TcpAddressParseError::EmptyHost));
    assert_eq!(tcp_address_to_server_name("host:99999"), Err(TcpAddressParseError::InvalidPort));
    assert_eq!(tcp_address_to_server_name("host:"), Err(TcpAddressParseError::MissingPort));
    assert_eq!(TcpAddressParseError::InvalidPort.message(), "Invalid TCP port");
}

#[test]
fn test_send_validate_refuses_zero_values() {
    let data = |downtime_ms: u64, timeout_s: u64, connections: u32| VmSendMigrationData {
        destination_url: "unix:/tmp/sock".to_string(),
        local: false,
        downtime_ms,
        timeout_s,
        timeout_strategy: Default::default(),
        connections,
        tls_dir: None,
        memory_mode: Default::default(),
    };
    let refused = |m: &str| Err(VmSendMigrationConfigError::ValidationError(m.to_owned()));
    assert_eq!(data(0, 10, 1).validate(), refused("downtime_ms must be non-zero"));
    assert_eq!(data(10, 0, 1).validate(), refused("timeout_s must be non-zero"));
    assert_eq!(data(10, 10, 0).validate(), refused("connections must be non-zero"));
    assert_eq!(data(10, 10, 1).validate(), Ok(()));
}

#[test]
fn test_url_to_path_quotes_the_path() {
    assert_eq!(
        url_to_path("file:///nonexistent/a\"b"),
        Err(MigratableError::MigrateSend("Destination is not a directory: \"/nonexistent/a\\\"b\"".to_owned()))
    );
    assert_eq!(
        url_to_path("http://x"),
        Err(MigratableError::MigrateSend("Could not extract path from URL: http://x".to_owned()))
    );
}

#[test]
fn test_dir_and_tls_verdicts() {
    assert_eq!(dir_verdict("/tmp".to_owned(), true), Ok("/tmp".to_owned()));
    assert_eq!(
        dir_verdict("/a b".to_owned(), false),
        Err(MigratableError::MigrateSend("Destination is not a directory: \"/a b\"".to_owned()))
    );
    assert_eq!(
        tls_dir_verdict("/d", TlsEndpoint::Client, false, [true, true, true]),
        Err(TlsDirError::NotADirectory("/d".to_owned()))
    );
    assert_eq!(
        tls_dir_verdict("/d", TlsEndpoint::Server, true, [true, false, false]),
        Err(TlsDirError::MissingFile("/d/server-cert.pem".to_owned()))
    );
    assert_eq!(tls_dir_verdict("/d/", TlsEndpoint::Client, true, [true, true, true]), Ok(()));
}
