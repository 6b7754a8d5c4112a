use libnetwork_daemon::interface::{InterfaceInfo, InterfaceType};
use libnetwork_daemon::state::ConnectionState;
use libnetwork_daemon::table::InterfaceTable;

fn make_test_interface(name: &str, id: u32, iface_type: InterfaceType) -> InterfaceInfo {
    InterfaceInfo {
        id,
        name: name.to_string(),
        interface_type: iface_type,
        state: ConnectionState::Disconnected,
        parent: None,
        mac_addr: None,
        ipv4_addrs: vec![],
        ipv6_addrs: vec![],
        gateway_ipv4: None,
        gateway_ipv6: None,
        dhcpv4_enabled: false,
        slaac_enabled: false,
    }
}

#[test]
fn test_insert_and_get() {
    let mut table = InterfaceTable::new();
    let info = make_test_interface("eth0", 1, InterfaceType::Ethernet);

    table.insert(info.clone());

    assert_eq!(table.get("eth0").unwrap().id, 1);
    assert_eq!(table.get_by_index(1).unwrap().name, "eth0");
    assert_eq!(table.get_index("eth0"), Some(1));
}

#[test]
fn test_remove() {
    let mut table = InterfaceTable::new();
    let info = make_test_interface("eth0", 1, InterfaceType::Ethernet);

    table.insert(info);
    assert!(table.contains("eth0"));

    let removed = table.remove("eth0");
    assert!(removed.is_some());
    assert!(!table.contains("eth0"));
    assert!(!table.contains_index(1));
}

#[test]
fn test_update() {
    let mut table = InterfaceTable::new();
    let mut info = make_test_interface("eth0", 1, InterfaceType::Ethernet);

    table.insert(info.clone());
    assert_eq!(table.list_by_state(&ConnectionState::Disconnected).len(), 1);

    info.state = ConnectionState::Connected;
    table.update(info);

    assert_eq!(table.list_by_state(&ConnectionState::Disconnected).len(), 0);
    assert_eq!(table.list_by_state(&ConnectionState::Connected).len(), 1);
}

#[test]
fn test_list_by_type() {
    let mut table = InterfaceTable::new();
    table.insert(make_test_interface("eth0", 1, InterfaceType::Ethernet));
    table.insert(make_test_interface("wlan0", 2, InterfaceType::Wlan));
    table.insert(make_test_interface("eth1", 3, InterfaceType::Ethernet));

    let ethernet = table.list_by_type(&InterfaceType::Ethernet);
    assert_eq!(ethernet.len(), 2);

    let wireless = table.list_by_type(&InterfaceType::Wlan);
    assert_eq!(wireless.len(), 1);
}

#[test]
fn reusing_an_index_drops_the_stale_mappings() {
    let mut table = InterfaceTable::default();
    table.insert(make_test_interface("eth0", 1, InterfaceType::Ethernet));
    table.insert(make_test_interface("eth1", 1, InterfaceType::Ethernet));
    assert_eq!(table.get_by_index(1).unwrap().name, "eth1");
    assert_eq!(table.get_index("eth0"), None);
    assert!(table.contains("eth0"));
    assert_eq!(table.len(), 2);
    table.insert(make_test_interface("eth1", 7, InterfaceType::Ethernet));
    assert!(!table.contains_index(1));
    assert_eq!(table.get_index("eth1"), Some(7));
    assert_eq!(table.all().len(), 2);
}

#[test]
fn parents_and_clearing() {
    let mut table = InterfaceTable::new();
    let mut wlan = make_test_interface("wlan0", 4, InterfaceType::Wlan);
    wlan.parent = Some("iwn0".to_string());
    table.insert(wlan);
    assert_eq!(table.list_by_parent("iwn0").len(), 1);
    assert!(table.list_by_parent("ath0").is_empty());
    assert_eq!(table.remove("wlan0").unwrap().id, 4);
    assert!(table.list_by_parent("iwn0").is_empty());
    assert!(table.remove("wlan0").is_none());
    table.insert(make_test_interface("eth0", 1, InterfaceType::Ethernet));
    table.clear();
    assert!(table.is_empty());
    assert!(table.get("eth0").is_none());
}
