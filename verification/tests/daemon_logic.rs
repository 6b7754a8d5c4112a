use libnetwork_daemon::daemon::{client_step, ClientRequest, ClientStep, GlobalDaemonResponse};
use libnetwork_daemon::backup::BackupRouteTable;
use libnetwork_daemon::config::{DaemonConfig, NetworkConfig};
use libnetwork_daemon::dhcp::LeaseBuilder;
use libnetwork_daemon::error::{IfconfigError, IoError};
use libnetwork_daemon::ifconfig::Ifconfig;
use libnetwork_daemon::interface::{
    InterfaceInfo, InterfaceType, LaggProtocol, LinkOptions, WlanLinkOptions, WlanMode,
};
use libnetwork_daemon::ip::{
    IpAddr, IntoPrefixed, Ipv4Addr, Ipv6Addr, PrefixedIpAddr, PrefixedIpv4Addr, PrefixedIpv6Addr,
};
use libnetwork_daemon::ssid::{escape_ssid, ssid_display_width, truncate_to_width, unescape_ssid};
use libnetwork_daemon::state::{ConnectedState, ConnectionState};
use libnetwork_daemon::storage::{cred_key, StoragePaths};
use libnetwork_daemon::wifi::{WiFiManagerAction, WpaCommand};

// ---------------------------------------------------------------- state

#[test]
fn test_connection_state_display() {
    assert_eq!(ConnectionState::Connected.to_string(), "Connected");
    assert_eq!(ConnectionState::Disconnected.to_string(), "Disconnected");
    assert_eq!(ConnectionState::NoCarrier.to_string(), "Unplugged");
    assert_eq!(ConnectionState::Disabled.to_string(), "Disabled");
    assert_eq!(ConnectionState::NotApplicable.to_string(), "N/A");
}

#[test]
fn test_connection_state_predicates() {
    assert!(ConnectionState::Connected.is_online());
    assert!(!ConnectionState::Disconnected.is_online());

    assert!(ConnectionState::Connected.is_available());
    assert!(ConnectionState::Disconnected.is_available());
    assert!(!ConnectionState::Disabled.is_available());

    assert!(ConnectionState::Connected.is_up());
    assert!(ConnectionState::Disconnected.is_up());
    assert!(!ConnectionState::Disabled.is_up());
}

#[test]
fn test_default() {
    assert_eq!(ConnectionState::default(), ConnectionState::NotApplicable);
}

#[test]
fn connection_state_other_texts_and_management() {
    assert_eq!(ConnectionState::Up.to_string(), "Up");
    assert_eq!(ConnectionState::Unmanaged.to_string(), "Unmanaged");
    assert!(ConnectionState::Up.is_up());
    assert!(!ConnectionState::Up.is_available());
    assert!(!ConnectionState::Unmanaged.is_managed());
    assert!(ConnectionState::NoCarrier.is_managed());
    assert_eq!(ConnectedState::default(), ConnectedState::Local);
    assert_eq!(ConnectedState::Internet.to_string(), "Connected");
    assert_eq!(ConnectedState::Local.to_string(), "Local Only");
}

// ---------------------------------------------------------------- ssid

#[test]
fn test_unescape_hex() {
    assert_eq!(unescape_ssid(r"Test\x20Network"), "Test Network");
    assert_eq!(unescape_ssid(r"\x48\x65\x6c\x6c\x6f"), "Hello");
    assert_eq!(unescape_ssid(r"A\x00B"), "A\0B");
}

#[test]
fn test_unescape_utf8() {
    assert_eq!(unescape_ssid(r"Ciallo\xef\xbd\x9e"), "Ciallo～");
    assert_eq!(
        unescape_ssid(r"Ciallo\xef\xbd\x9e(\xe2\x88\xa0\xe3\x83\xbb\xcf\x89< )\xe2\x8c\x92\xe2\x98\x85"),
        "Ciallo～(∠・ω< )⌒★"
    );
    assert_eq!(unescape_ssid(r"\xe4\xb8\xad\xe6\x96\x87"), "中文");
}

#[test]
fn test_unescape_special() {
    assert_eq!(unescape_ssid(r"Hello\\World"), "Hello\\World");
    assert_eq!(unescape_ssid(r#"Say\"Hello\""#), "Say\"Hello\"");
    assert_eq!(unescape_ssid(r"Line1\nLine2"), "Line1\nLine2");
    assert_eq!(unescape_ssid(r"Tab\there"), "Tab\there");
}

#[test]
fn test_unescape_plain() {
    assert_eq!(unescape_ssid("PlainSSID"), "PlainSSID");
    assert_eq!(unescape_ssid(""), "");
}

#[test]
fn test_escape_basic() {
    assert_eq!(escape_ssid("Hello"), "Hello");
    assert_eq!(escape_ssid(r"Hello\World"), r"Hello\\World");
}

#[test]
fn test_escape_space() {
    assert_eq!(escape_ssid("Test Network"), r"Test\x20Network");
}

#[test]
fn test_escape_special() {
    assert_eq!(escape_ssid("Line\nBreak"), r"Line\nBreak");
    assert_eq!(escape_ssid("Tab\there"), r"Tab\there");
}

#[test]
fn test_roundtrip() {
    let original = "Test Network";
    let escaped = escape_ssid(original);
    let unescaped = unescape_ssid(&escaped);
    assert_eq!(unescaped, original);
}

#[test]
fn test_display_width() {
    assert_eq!(ssid_display_width("Hello"), 5);
    assert_eq!(ssid_display_width(""), 0);
}

#[test]
fn test_truncate() {
    assert_eq!(truncate_to_width("Hello", 10), "Hello");
    assert_eq!(truncate_to_width("Hello World", 8), "Hello...");
    assert_eq!(truncate_to_width("Hi", 10), "Hi");
}

#[test]
fn ssid_round_trip_with_quotes_and_wide_characters() {
    for original in ["Café \"Net\"", "中文 网络", "a\\b\tc", "", "  "] {
        assert_eq!(unescape_ssid(&escape_ssid(original)), original);
    }
}

#[test]
fn ssid_width_counts_wide_characters_twice() {
    assert_eq!(ssid_display_width("中文"), 4);
    assert_eq!(truncate_to_width("中文网络", 5), "中...");
}

#[test]
fn unescape_octal_and_unknown_escapes() {
    assert_eq!(unescape_ssid(r"\101\102"), "AB");
    assert_eq!(unescape_ssid(r"a\qb"), r"a\qb");
    assert_eq!(unescape_ssid(r"\e"), r"\e");
}

// ---------------------------------------------------------------- ip

#[test]
fn v4_net_id_zero_prefix() {
    let p = PrefixedIpv4Addr::new(Ipv4Addr::new(192, 168, 1, 5), 0);
    assert_eq!(p.net_id(), PrefixedIpv4Addr::new(Ipv4Addr::unspecified(), 0));
}

#[test]
fn v4_net_id_masks_host_bits() {
    let p = PrefixedIpv4Addr::new(Ipv4Addr::new(192, 168, 1, 55), 24);
    assert_eq!(p.net_id(), PrefixedIpv4Addr::new(Ipv4Addr::new(192, 168, 1, 0), 24));
}

#[test]
fn v4_net_id_preserves_classful_high_bits() {
    let p = PrefixedIpv4Addr::new(Ipv4Addr::new(10, 20, 30, 40), 8);
    assert_eq!(p.net_id(), PrefixedIpv4Addr::new(Ipv4Addr::new(10, 0, 0, 0), 8));
}

#[test]
fn v4_net_id_full_prefix_is_identity() {
    let addr = Ipv4Addr::new(203, 0, 113, 9);
    let p = PrefixedIpv4Addr::new(addr, 32);
    assert_eq!(p.net_id(), p);
}

#[test]
fn v6_net_id_masks_host_bits() {
    let p = PrefixedIpv6Addr::new(Ipv6Addr::new(0x2001, 0xdb8, 0, 1, 0, 0, 0, 1), 64);
    assert_eq!(
        p.net_id(),
        PrefixedIpv6Addr::new(Ipv6Addr::new(0x2001, 0xdb8, 0, 1, 0, 0, 0, 0), 64)
    );
}

#[test]
fn v6_net_id_default_route_prefix() {
    let p = PrefixedIpv6Addr::new(Ipv6Addr::new(0x2001, 0xdb8, 0, 0, 0, 0, 0, 1), 0);
    assert_eq!(p.net_id(), PrefixedIpv6Addr::unspecified());
}

#[test]
fn v4_unspecified_constant() {
    assert_eq!(PrefixedIpv4Addr::unspecified(), PrefixedIpv4Addr::new(Ipv4Addr::unspecified(), 0));
}

#[test]
fn v4_text_and_octets() {
    let a = PrefixedIpv4Addr::new(Ipv4Addr::new(192, 168, 1, 5), 24);
    assert_eq!(a.to_string(), "192.168.1.5/24");
    assert_eq!(Ipv4Addr::new(10, 0, 0, 255).octets(), [10, 0, 0, 255]);
    assert_eq!(Ipv4Addr::new(1, 2, 3, 4).to_bits(), 0x0102_0304);
    assert_eq!(Ipv4Addr::from_bits(0xc0a8_0101), Ipv4Addr::new(192, 168, 1, 1));
}

#[test]
fn net_id_is_idempotent_on_values() {
    let p = PrefixedIpv4Addr::new(Ipv4Addr::new(172, 16, 254, 3), 12);
    assert_eq!(p.net_id().net_id(), p.net_id());
    assert_eq!(p.net_id().addr, Ipv4Addr::new(172, 16, 0, 0));
    let q = PrefixedIpv6Addr::new(Ipv6Addr::new(0xfe80, 0, 0, 0, 1, 2, 3, 4), 10);
    assert_eq!(q.net_id().net_id(), q.net_id());
    assert_eq!(q.net_id().addr, Ipv6Addr::new(0xfe80, 0, 0, 0, 0, 0, 0, 0));
}

#[test]
fn into_prefixed_keeps_family() {
    let a = IpAddr::V4(Ipv4Addr::new(10, 1, 2, 3)).into_prefixed(16);
    assert_eq!(a, PrefixedIpAddr::V4(PrefixedIpv4Addr::new(Ipv4Addr::new(10, 1, 2, 3), 16)));
    let b: PrefixedIpv6Addr = Ipv6Addr::new(0x2001, 0xdb8, 0, 0, 0, 0, 0, 1).into_prefixed(64);
    assert_eq!(b.prefix_len, 64);
}

// ---------------------------------------------------------------- dhcp

fn base() -> LeaseBuilder {
    LeaseBuilder::new()
        .set_assigned_ip(Ipv4Addr::new(192, 168, 1, 50))
        .set_server_id(Ipv4Addr::new(192, 168, 1, 1))
        .set_subnet_mask(Ipv4Addr::new(255, 255, 255, 0))
        .set_lease_time(3600)
}

#[test]
fn default_timers_are_fractions_of_lease() {
    let lease = base().build().unwrap();
    assert_eq!(lease.renewal_time, 1800);
    assert_eq!(lease.rebinding_time, 3150);
}

#[test]
fn explicit_timers_are_preserved() {
    let lease = base().set_renewal_time(100).set_rebinding_time(200).build().unwrap();
    assert_eq!(lease.renewal_time, 100);
    assert_eq!(lease.rebinding_time, 200);
}

#[test]
fn missing_required_fields_is_error() {
    assert!(LeaseBuilder::new().build().is_err());
    assert!(LeaseBuilder::new().set_assigned_ip(Ipv4Addr::new(1, 2, 3, 4)).build().is_err());
}

#[test]
fn round_trip_dns_and_router() {
    let lease = base()
        .set_router(Ipv4Addr::new(192, 168, 1, 1))
        .add_dns_server(Ipv4Addr::new(8, 8, 8, 8))
        .add_dns_server(Ipv4Addr::new(8, 8, 4, 4))
        .build()
        .unwrap();
    assert_eq!(lease.router, Some(Ipv4Addr::new(192, 168, 1, 1)));
    assert_eq!(lease.dns_servers.len(), 2);
}

#[test]
fn missing_fields_are_reported_in_order() {
    assert_eq!(LeaseBuilder::new().build().unwrap_err(), "Assigned IP is required");
    assert_eq!(
        LeaseBuilder::new().set_assigned_ip(Ipv4Addr::new(1, 2, 3, 4)).build().unwrap_err(),
        "Server ID is required"
    );
    assert_eq!(
        LeaseBuilder::new()
            .set_assigned_ip(Ipv4Addr::new(1, 2, 3, 4))
            .set_server_id(Ipv4Addr::new(1, 2, 3, 1))
            .build()
            .unwrap_err(),
        "Subnet mask is required"
    );
}

#[test]
fn default_rebinding_of_the_largest_lease_does_not_overflow() {
    let lease = base().set_lease_time(u32::MAX).build().unwrap();
    assert_eq!(lease.renewal_time, u32::MAX / 2);
    assert_eq!(lease.rebinding_time, ((u32::MAX as u64) * 7 / 8) as u32);
}

// ---------------------------------------------------------------- config

fn net(mac: Option<&str>, ssid: &str, security: &str, priority: i32) -> NetworkConfig {
    NetworkConfig {
        ssid: ssid.to_string(),
        interface_mac: mac.map(|m| m.to_string()),
        bssid: None,
        security: security.to_string(),
        hidden: false,
        priority,
        enabled: true,
    }
}

#[test]
fn upsert_replaces_the_same_profile_and_appends_others() {
    let mut cfg = DaemonConfig::default();
    cfg.upsert_network(net(Some("aa"), "Home", "Psk", 1));
    cfg.upsert_network(net(Some("aa"), "Office", "Eap", 2));
    cfg.upsert_network(net(Some("aa"), "Home", "Psk", 7));
    assert_eq!(cfg.networks.len(), 2);
    assert_eq!(cfg.networks[0].ssid, "Home");
    assert_eq!(cfg.networks[0].priority, 7);
    cfg.upsert_network(net(Some("bb"), "Home", "Psk", 3));
    cfg.upsert_network(net(Some("aa"), "Home", "Open", 4));
    assert_eq!(cfg.networks.len(), 4);
}

#[test]
fn remove_network_reports_whether_it_existed() {
    let mut cfg = DaemonConfig::default();
    cfg.upsert_network(net(Some("aa"), "Home", "Psk", 1));
    cfg.upsert_network(net(Some("aa"), "Home", "Open", 2));
    cfg.upsert_network(net(None, "Home", "Psk", 3));
    assert!(!cfg.remove_network(Some("aa"), "Other", None, None));
    assert!(cfg.remove_network(Some("aa"), "Home", None, Some("Psk")));
    assert_eq!(cfg.networks.len(), 2);
    assert!(cfg.remove_network(Some("aa"), "Home", None, None));
    assert_eq!(cfg.networks.len(), 1);
    assert!(cfg.networks[0].interface_mac.is_none());
    assert!(!cfg.remove_network(Some("aa"), "Home", None, None));
}

#[test]
fn removing_after_upsert_undoes_it() {
    let mut cfg = DaemonConfig::default();
    cfg.upsert_network(net(Some("aa"), "Cafe", "Open", 0));
    let n = net(Some("aa"), "Home", "Psk", 9);
    cfg.upsert_network(n);
    assert!(cfg.remove_network(Some("aa"), "Home", None, Some("Psk")));
    assert_eq!(cfg.networks.len(), 1);
    assert_eq!(cfg.networks[0].ssid, "Cafe");
}

// ---------------------------------------------------------------- ifconfig

#[test]
fn validates_bridge_members() {
    Ifconfig::validate_link(
        "bridge0",
        &LinkOptions::Bridge { members: vec!["em0".to_string(), "em1".to_string()] },
    )
    .unwrap();
}

#[test]
fn validates_lagg_parameters() {
    Ifconfig::validate_link(
        "lagg0",
        &LinkOptions::Lagg {
            protocol: LaggProtocol::Lacp,
            members: vec!["em0".to_string(), "em1".to_string()],
        },
    )
    .unwrap();
}

#[test]
fn validates_vlan_parameters() {
    Ifconfig::validate_link("vlan10", &LinkOptions::Vlan { parent: "em0".to_string(), tag: 10 })
        .unwrap();
}

#[test]
fn rejects_invalid_link_parameters_before_ioctl() {
    let invalid_vlan =
        Ifconfig::validate_link("vlan0", &LinkOptions::Vlan { parent: "em0".to_string(), tag: 4095 });
    assert!(invalid_vlan.is_err());

    let invalid_member = Ifconfig::validate_link(
        "bridge0",
        &LinkOptions::Bridge { members: vec!["em 0".to_string()] },
    );
    assert!(invalid_member.is_err());
}

fn runtime_message(r: Result<(), IfconfigError>) -> String {
    match r {
        Err(IfconfigError::RuntimeError(m)) => m,
        other => panic!("unexpected result: {:?}", other),
    }
}

#[test]
fn link_errors_name_what_is_wrong() {
    assert_eq!(
        runtime_message(Ifconfig::validate_link("", &LinkOptions::Bridge { members: vec![] })),
        "invalid interface name"
    );
    assert_eq!(
        runtime_message(Ifconfig::validate_link(
            "wlan0",
            &LinkOptions::Wlan { parent: "ath\t0".to_string(), options: WlanLinkOptions::default() }
        )),
        "invalid wireless parent name"
    );
    assert_eq!(
        runtime_message(Ifconfig::validate_link(
            "lagg0",
            &LinkOptions::Lagg { protocol: LaggProtocol::Failover, members: vec!["em0".to_string(), "".to_string()] }
        )),
        "invalid lagg member name"
    );
    assert_eq!(
        runtime_message(Ifconfig::validate_link(
            "vlan1",
            &LinkOptions::Vlan { parent: "em\u{7}".to_string(), tag: 5 }
        )),
        "invalid VLAN parent name"
    );
    assert_eq!(
        runtime_message(Ifconfig::validate_link("vlan1", &LinkOptions::Vlan { parent: "em0".to_string(), tag: 0 })),
        "VLAN tag must be between 1 and 4094"
    );
    assert!(Ifconfig::validate_link("vlan1", &LinkOptions::Vlan { parent: "em0".to_string(), tag: 4094 }).is_ok());
    assert!(Ifconfig::validate_name("wlan\u{a0}0", "interface").is_err());
    assert!(Ifconfig::validate_name("wlän0", "interface").is_ok());
}

#[test]
fn ifconfig_error_texts() {
    let e = IfconfigError::RuntimeError("boom".to_string());
    assert_eq!(e.to_string(), "Runtime Error: boom");
    let io = IfconfigError::IoError(IoError { message: "denied".to_string() });
    assert_eq!(io.to_string(), "IO Error: I/O error: denied");
    assert_eq!(IfconfigError::NulError("x".to_string()).to_string(), "Nul Error: x");
    assert_eq!(WlanLinkOptions::default().mode, WlanMode::Sta);
}

// ---------------------------------------------------------------- backup routes

#[test]
fn insert_records_gateway_and_nets() {
    let mut table = BackupRouteTable::<u32>::new();
    table.insert(1, 10, vec![100, 200]);
    table.insert(2, 20, vec![200, 300]);

    let mut gws: Vec<(u32, u32)> = table.available_gateways();
    gws.sort();
    assert_eq!(gws, vec![(10, 1), (20, 2)]);

    let outputs: Vec<u32> = table.net_outputs(&200).unwrap();
    assert_eq!(outputs.len(), 2);
    assert!(outputs.contains(&1));
    assert!(outputs.contains(&2));

    assert_eq!(table.net_outputs(&100).unwrap().len(), 1);
    assert!(table.net_outputs(&999).is_none());
}

#[test]
fn remove_cleans_all_mappings() {
    let mut table = BackupRouteTable::<u32>::new();
    table.insert(1, 10, vec![100, 200]);
    table.insert(2, 20, vec![200]);

    table.remove(1);

    assert_eq!(table.available_gateways().len(), 1);
    assert!(table.net_outputs(&100).is_none());
    let outputs: Vec<u32> = table.net_outputs(&200).unwrap();
    assert_eq!(outputs, vec![2]);
}

#[test]
fn reinsert_replaces_gateway_and_keeps_links_once() {
    let mut table = BackupRouteTable::<u32>::new();
    table.insert(1, 10, vec![100, 100]);
    table.insert(1, 11, vec![100, 101]);
    assert_eq!(table.available_gateways(), vec![(11, 1)]);
    assert_eq!(table.net_outputs(&100).unwrap(), vec![1]);
    table.remove(1);
    assert!(table.available_gateways().is_empty());
    assert!(table.net_outputs(&101).is_none());
}

#[test]
fn backup_table_keyed_by_prefixes() {
    let mut table = BackupRouteTable::<PrefixedIpv4Addr>::new();
    let gw = PrefixedIpv4Addr::new(Ipv4Addr::new(192, 168, 1, 1), 32);
    let lan = PrefixedIpv4Addr::new(Ipv4Addr::new(192, 168, 1, 0), 24);
    table.insert(3, gw, vec![lan]);
    assert_eq!(table.available_gateways(), vec![(gw, 3)]);
    assert_eq!(table.net_outputs(&lan).unwrap(), vec![3]);
}

// ---------------------------------------------------------------- wpa commands

#[test]
fn wpa_command_wire_strings() {
    assert_eq!(WpaCommand::Ping.to_string(), "PING");
    assert_eq!(WpaCommand::ScanResults.to_string(), "SCAN_RESULTS");
    assert_eq!(WpaCommand::Bss { addr: "aa:bb".to_string() }.to_string(), "BSS aa:bb");
    assert_eq!(
        WpaCommand::SetParam { key: "ap_scan".to_string(), value: "1".to_string() }.to_string(),
        "SET ap_scan 1"
    );
    assert_eq!(
        WpaCommand::SetNetwork { id: 3, key: "ssid".to_string(), value: "\"x\"".to_string() }.to_string(),
        "SET_NETWORK 3 ssid \"x\""
    );
    assert_eq!(WpaCommand::GetNetwork { id: 12, key: "psk".to_string() }.to_string(), "GET_NETWORK 12 psk");
    assert_eq!(WpaCommand::EnableNetwork { id: 0 }.to_string(), "ENABLE_NETWORK 0");
    assert_eq!(WpaCommand::DisableNetwork { id: -1 }.to_string(), "DISABLE_NETWORK -1");
    assert_eq!(WpaCommand::RemoveNetwork { id: i32::MIN }.to_string(), "REMOVE_NETWORK -2147483648");
    assert_eq!(WpaCommand::SelectNetwork { id: Some(7) }.to_string(), "SELECT_NETWORK 7");
    assert_eq!(WpaCommand::SelectNetwork { id: None }.to_string(), "SELECT_NETWORK any");
    assert_eq!(WpaCommand::SaveConfig.to_string(), "SAVE_CONFIG");
    assert_eq!(WpaCommand::Unknown("MIB".to_string()).to_string(), "MIB");
}

// ---------------------------------------------------------------- storage

#[test]
fn credential_keys_use_empty_bssid_for_any() {
    assert_eq!(cred_key("Home", None), ("Home".to_string(), String::new()));
    assert_eq!(
        cred_key("Home", Some("aa:bb:cc:dd:ee:ff")),
        ("Home".to_string(), "aa:bb:cc:dd:ee:ff".to_string())
    );
}

#[test]
fn storage_paths_are_inside_the_config_dir() {
    let paths = StoragePaths {
        runtime_dir: "/var/run/network-daemon".to_string(),
        config_dir: "/var/db/network-daemon".to_string(),
    };
    assert_eq!(paths.secret_key_path(), "/var/db/network-daemon/secret.key");
    assert_eq!(paths.db_path(), "/var/db/network-daemon/credentials.db");
    let trailing = StoragePaths { runtime_dir: String::new(), config_dir: "/etc/nd/".to_string() };
    assert_eq!(trailing.db_path(), "/etc/nd/credentials.db");
}

// ---------------------------------------------------------------- interfaces

#[test]
fn interface_info_addresses() {
    let mut info = InterfaceInfo::new(4, "wlan0");
    assert_eq!(info.state, ConnectionState::NotApplicable);
    assert!(info.dhcpv4_enabled);
    assert!(!info.is_wlan());
    let a = PrefixedIpAddr::V4(PrefixedIpv4Addr::new(Ipv4Addr::new(10, 0, 0, 2), 24));
    let b = PrefixedIpAddr::V6(PrefixedIpv6Addr::new(Ipv6Addr::new(0xfe80, 0, 0, 0, 0, 0, 0, 2), 64));
    assert!(!info.contains_addr(&a));
    info.add_addr(a);
    info.add_addr(b);
    assert!(info.contains_addr(&a));
    assert!(info.contains_addr(&b));
    assert_eq!(info.ipv4_addrs.len(), 1);
    assert_eq!(info.ipv6_addrs.len(), 1);
    info.interface_type = InterfaceType::Wlan;
    assert!(info.is_wlan());
    assert_eq!(InterfaceInfo::default().id, 0);
    assert_eq!(InterfaceType::default(), InterfaceType::Other);
}

#[test]
fn prefixed_addresses_wrap_into_either_family() {
    let a = PrefixedIpv4Addr::new(Ipv4Addr::new(10, 0, 0, 1), 8);
    assert_eq!(PrefixedIpAddr::from_v4(a), PrefixedIpAddr::V4(a));
    let b = PrefixedIpv6Addr::new(Ipv6Addr::new(0xfe80, 0, 0, 0, 0, 0, 0, 1), 64);
    assert_eq!(PrefixedIpAddr::from_v6(b), PrefixedIpAddr::V6(b));
}

#[test]
fn client_requests_are_routed() {
    assert!(matches!(client_step(&ClientRequest::Shutdown, false), ClientStep::Shutdown));
    let scan = ClientRequest::Wifi { iface: "wlan0".to_string(), action: WiFiManagerAction::Scan };
    match client_step(&scan, false) {
        ClientStep::Reply(GlobalDaemonResponse::WiFiInterfaceNotFound { iface }) => {
            assert_eq!(iface, "wlan0")
        }
        other => panic!("unexpected {other:?}"),
    }
    assert!(matches!(client_step(&scan, true), ClientStep::ForwardWifi));
    let sub = ClientRequest::Wifi {
        iface: "wlan0".to_string(),
        action: WiFiManagerAction::SubscribeEvents,
    };
    assert!(matches!(client_step(&sub, true), ClientStep::SubscribeWifi));
    let remove = ClientRequest::Wifi {
        iface: "wlan0".to_string(),
        action: WiFiManagerAction::RemoveNetwork { ssid: "Home".to_string(), bssid: None },
    };
    assert!(matches!(client_step(&remove, true), ClientStep::ForgetThenForward));
    let add = ClientRequest::Wifi {
        iface: "wlan0".to_string(),
        action: WiFiManagerAction::AddNetwork {
            ssid: "Home".to_string(),
            bssid: None,
            security: libnetwork_daemon::security::Security::Open,
            password: None,
            identity: None,
            hidden: false,
        },
    };
    assert!(matches!(client_step(&add, true), ClientStep::SaveThenForward));
    assert!(matches!(
        client_step(&ClientRequest::Interface { subscribe: true }, false),
        ClientStep::SubscribeInterface
    ));
    assert!(matches!(
        client_step(&ClientRequest::Interface { subscribe: false }, false),
        ClientStep::ForwardInterface
    ));
}
