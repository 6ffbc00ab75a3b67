use wakeup::convert_mac;
use wakeup::craft_magic_packet;
use wakeup::craft_packets_for_host;
use wakeup::plan_dispatch;
use wakeup::resolve_destination;
use wakeup::validate_hardware_address_syntax;
use wakeup::validate_ipv4_syntax;
use wakeup::Config;
use wakeup::ConfigError;
use wakeup::ConfigFileNotFoundError;
use wakeup::Host;
use wakeup::HostRegistry;
use wakeup::MagicError;
use wakeup::UnknownHostError;
use wakeup::WakeUpError;

#[test]
fn test_test() {
    assert_eq!(1, 1)
}

#[test]
fn test_valid_mac() {
    let mac = "aa:bb:cc:dd:ee:ff".to_string();
    let expected: Vec<u8> = vec![170, 187, 204, 221, 238, 255];
    let result = convert_mac(&mac);
    assert_eq!(expected, result.unwrap());
}

#[test]
#[should_panic]
fn test_invalid_mac_short() {
    let mac = "bb:cc:dd:ee:ff".to_string();
    let _result = convert_mac(&mac).unwrap();
}

#[test]
#[should_panic]
fn test_invalid_mac() {
    let mac = "gg:bb:cc:dd:ee:ff".to_string();
    let _result = convert_mac(&mac).unwrap();
}

#[test]
fn test_valid_magic_len() {
    let mac = "aa:bb:cc:dd:ee:ff".to_string();
    let expected = 102;
    let result = craft_magic_packet(&mac);
    assert_eq!(expected, result.unwrap().len());
}

#[test]
fn test_valid_magic() {
    let mac = "aa:bb:cc:dd:ee:ff".to_string();
    let expected = vec![
        255, 255, 255, 255, 255, 255, 170, 187, 204, 221, 238, 255, 170, 187, 204, 221, 238, 255,
        170, 187, 204, 221, 238, 255, 170, 187, 204, 221, 238, 255, 170, 187, 204, 221, 238, 255,
        170, 187, 204, 221, 238, 255, 170, 187, 204, 221, 238, 255, 170, 187, 204, 221, 238, 255,
        170, 187, 204, 221, 238, 255, 170, 187, 204, 221, 238, 255, 170, 187, 204, 221, 238, 255,
        170, 187, 204, 221, 238, 255, 170, 187, 204, 221, 238, 255, 170, 187, 204, 221, 238, 255,
        170, 187, 204, 221, 238, 255, 170, 187, 204, 221, 238, 255,
    ];

    let result = craft_magic_packet(&mac);
    assert_eq!(expected, result.unwrap());
}

#[test]
fn test_magic_packet_shape() {
    let mac = "aa:bb:cc:dd:ee:ff".to_string();
    let decoded = convert_mac(&mac).unwrap();
    assert_eq!(decoded, vec![0xAA, 0xBB, 0xCC, 0xDD, 0xEE, 0xFF]);
    let packet = craft_magic_packet(&mac).unwrap();
    assert_eq!(packet.len(), 102);
    for i in 0..6 {
        assert_eq!(packet[i], 0xFF);
    }
    for rep in 0..16 {
        for j in 0..6 {
            assert_eq!(packet[6 + 6 * rep + j], decoded[j]);
        }
    }
}

#[test]
fn test_encode_twice_identical() {
    let mac = "00:11:22:33:44:55".to_string();
    let first = craft_magic_packet(&mac).unwrap();
    let second = craft_magic_packet(&mac).unwrap();
    assert_eq!(first, second);
}

#[test]
fn test_decode_rejects_concatenated_groups() {
    // the groups would hex-decode to 6 bytes in all, but the group count
    // is not six, so decoding rejects the string
    let mac = "aabb:ccdd:eeff".to_string();
    let result = convert_mac(&mac);
    assert!(matches!(result, Err(WakeUpError::InvalidMacFormat)));
    assert!(!validate_hardware_address_syntax(&mac));
}

#[test]
fn test_decode_rejects_wide_group() {
    // five groups, one of them four digits: 6 bytes in all, still rejected
    let mac = "aabb:cc:dd:ee:ff".to_string();
    let result = convert_mac(&mac);
    assert!(matches!(result, Err(WakeUpError::InvalidMacFormat)));
}

#[test]
fn test_convert_mac_error_kind() {
    let mac = "aa:bb:cc:dd:ee:ff:gg".to_string();
    let result = convert_mac(&mac);
    assert!(matches!(result, Err(WakeUpError::InvalidMacFormat)));
}

#[test]
fn test_validate_mac_syntax() {
    assert!(validate_hardware_address_syntax("aa:bb:cc:dd:ee:ff"));
    assert!(validate_hardware_address_syntax("AA:BB:CC:DD:EE:FF"));
    assert!(validate_hardware_address_syntax("00:11:22:33:44:55"));
    assert!(!validate_hardware_address_syntax("aa:bb:cc:dd:ee:ff:gg"));
    assert!(!validate_hardware_address_syntax("bb:cc:dd:ee:ff"));
    assert!(!validate_hardware_address_syntax("gg:bb:cc:dd:ee:ff"));
    assert!(!validate_hardware_address_syntax("aa-bb-cc-dd-ee-ff"));
    assert!(!validate_hardware_address_syntax(""));
}

#[test]
fn test_validate_ipv4_syntax() {
    assert!(validate_ipv4_syntax("255.255.255.255"));
    assert!(validate_ipv4_syntax("127.0.0.1"));
    assert!(validate_ipv4_syntax("192.168.178.255"));
    assert!(!validate_ipv4_syntax("127.0.0.a"));
    assert!(!validate_ipv4_syntax("1.2.3"));
    assert!(!validate_ipv4_syntax("1.2.3.4.5"));
    assert!(!validate_ipv4_syntax("1234.0.0.1"));
    assert!(!validate_ipv4_syntax(""));
}

#[test]
fn test_resolve_unknown_host() {
    let registry = HostRegistry::new(vec![
        Host::new(vec!["aa:bb:cc:dd:ee:ff".to_string()], "desktop".to_string()),
        Host::new(vec!["00:11:22:33:44:55".to_string()], "laptop".to_string()),
    ]);
    let name = "unknown-name".to_string();
    let result = registry.resolve_by_name(&name);
    assert!(matches!(result, Err(WakeUpError::UnknownHost)));
}

#[test]
fn test_resolve_present_host() {
    let registry = HostRegistry::new(vec![
        Host::new(vec!["aa:bb:cc:dd:ee:ff".to_string()], "desktop".to_string()),
        Host::new(vec!["00:11:22:33:44:55".to_string()], "laptop".to_string()),
    ]);
    let name = "laptop".to_string();
    let host = registry.resolve_by_name(&name).unwrap();
    assert_eq!(host.name, "laptop");
    assert_eq!(host.mac_addresses, vec!["00:11:22:33:44:55".to_string()]);
}

#[test]
fn test_resolve_last_entry_wins() {
    let registry = HostRegistry::new(vec![
        Host::new(vec!["aa:bb:cc:dd:ee:ff".to_string()], "desktop".to_string()),
        Host::new(vec!["00:11:22:33:44:55".to_string()], "desktop".to_string()),
    ]);
    let name = "desktop".to_string();
    let host = registry.resolve_by_name(&name).unwrap();
    assert_eq!(host.mac_addresses, vec!["00:11:22:33:44:55".to_string()]);
}

#[test]
fn test_multi_address_host_packets() {
    let host = Host::new(
        vec![
            "aa:bb:cc:dd:ee:ff".to_string(),
            "00:11:22:33:44:55".to_string(),
        ],
        "server".to_string(),
    );
    let packets = craft_packets_for_host(&host).unwrap();
    assert_eq!(packets.len(), 2);
    assert_eq!(
        packets[0],
        craft_magic_packet(&"aa:bb:cc:dd:ee:ff".to_string()).unwrap()
    );
    assert_eq!(
        packets[1],
        craft_magic_packet(&"00:11:22:33:44:55".to_string()).unwrap()
    );
    assert_ne!(packets[0], packets[1]);
}

#[test]
fn test_plan_dispatch_named_default_destination() {
    let registry = HostRegistry::new(vec![Host::new(
        vec!["00:11:22:33:44:55".to_string()],
        "desktop".to_string(),
    )]);
    let config = Config {
        host_name: Some("desktop".to_string()),
        ip_address: None,
        port: None,
        mac_address: None,
    };
    let plan = plan_dispatch(&config, Some(&registry)).unwrap();
    assert_eq!(plan.packets.len(), 1);
    assert_eq!(plan.packets[0].len(), 102);
    assert_eq!(plan.destination.address, "255.255.255.255");
    assert_eq!(plan.destination.port, 9);
}

#[test]
fn test_plan_dispatch_unknown_name() {
    let registry = HostRegistry::new(vec![Host::new(
        vec!["00:11:22:33:44:55".to_string()],
        "desktop".to_string(),
    )]);
    let config = Config {
        host_name: Some("unknown-name".to_string()),
        ip_address: None,
        port: None,
        mac_address: None,
    };
    let result = plan_dispatch(&config, Some(&registry));
    assert!(matches!(result, Err(WakeUpError::UnknownHost)));
}

#[test]
fn test_plan_dispatch_registry_unavailable() {
    let config = Config {
        host_name: Some("desktop".to_string()),
        ip_address: None,
        port: None,
        mac_address: None,
    };
    let result = plan_dispatch(&config, None);
    assert!(matches!(result, Err(WakeUpError::ConfigUnavailable)));
}

#[test]
fn test_plan_dispatch_direct_mode_ignores_missing_registry() {
    let config = Config {
        host_name: None,
        ip_address: Some("192.168.178.255".to_string()),
        port: Some(7),
        mac_address: Some("aa:bb:cc:dd:ee:ff".to_string()),
    };
    let plan = plan_dispatch(&config, None).unwrap();
    assert_eq!(plan.packets.len(), 1);
    assert_eq!(
        plan.packets[0],
        craft_magic_packet(&"aa:bb:cc:dd:ee:ff".to_string()).unwrap()
    );
    assert_eq!(plan.destination.address, "192.168.178.255");
    assert_eq!(plan.destination.port, 7);
}

#[test]
fn test_plan_dispatch_malformed_direct_address() {
    let config = Config {
        host_name: None,
        ip_address: None,
        port: None,
        mac_address: Some("aa:bb:cc:dd:ee:ff:gg".to_string()),
    };
    let result = plan_dispatch(&config, None);
    assert!(matches!(result, Err(WakeUpError::InvalidMacFormat)));
}

#[test]
fn test_plan_dispatch_rejects_noncanonical_address() {
    // wrong group count even though the bytes would total six
    let config = Config {
        host_name: None,
        ip_address: None,
        port: None,
        mac_address: Some("aabb:ccdd:eeff".to_string()),
    };
    let result = plan_dispatch(&config, None);
    assert!(matches!(result, Err(WakeUpError::InvalidMacFormat)));
}

#[test]
fn test_resolve_destination_defaults() {
    let endpoint = resolve_destination(&None, &None);
    assert_eq!(endpoint.address, "255.255.255.255");
    assert_eq!(endpoint.port, 9);
    let endpoint = resolve_destination(&Some("10.0.0.255".to_string()), &Some(40000));
    assert_eq!(endpoint.address, "10.0.0.255");
    assert_eq!(endpoint.port, 40000);
}

#[test]
fn test_host_display_name() {
    let host = Host::new(vec!["aa:bb:cc:dd:ee:ff".to_string()], "my_host".to_string());
    assert_eq!(host.display_name(), "my_host");
}

#[test]
fn test_error_messages() {
    assert_eq!(
        WakeUpError::UnknownHost.message(),
        UnknownHostError.message()
    );
    assert_eq!(UnknownHostError.message(), "Not a known host.");
    assert_eq!(ConfigError.message(), "Invalid config.");
    assert_eq!(
        ConfigFileNotFoundError.message(),
        "Could not find config file."
    );
    assert_eq!(
        MagicError.message(),
        "Something went wrong while crafting the magic package."
    );
    assert_eq!(UnknownHostError.kind(), WakeUpError::UnknownHost);
    assert_eq!(ConfigFileNotFoundError.kind(), WakeUpError::ConfigUnavailable);
    assert_eq!(MagicError.kind(), WakeUpError::PacketConstruction);
    assert_eq!(ConfigError.kind(), WakeUpError::ConfigUnavailable);
    assert_eq!(
        WakeUpError::InvalidIpFormat.message(),
        "Invalid format for ip address"
    );
    assert_eq!(
        WakeUpError::Transmission.message(),
        "Could not send the magic packet."
    );
}
