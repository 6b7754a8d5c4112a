use libnetwork_daemon::actions::{
    clamp_wifi_iface, create_step, delete_target, edit_open, global_failure, hostname_to_save,
    poll_step, CreateStep, EditOpen, PollStep,
};
use libnetwork_daemon::daemon::GlobalDaemonResponse;
use libnetwork_daemon::interface::{InterfaceInfo, InterfaceType};
use libnetwork_daemon::mac::MacAddr;
use libnetwork_daemon::network::{KnownNetwork, KnownNetworkState};
use libnetwork_daemon::rows::edit_rows;
use libnetwork_daemon::security::Security;
use libnetwork_daemon::state::ConnectionState;
use libnetwork_daemon::status::WpaState;

fn iface(name: &str, kind: InterfaceType) -> InterfaceInfo {
    let mut info = InterfaceInfo::new(1, name);
    info.interface_type = kind;
    info.state = ConnectionState::Up;
    info
}

fn saved(ssid: &str) -> KnownNetwork {
    KnownNetwork {
        id: Some(3),
        priority: 1,
        hidden: false,
        security: Security::Psk,
        state: KnownNetworkState::Enabled,
        ssid: ssid.to_string(),
        bssid: MacAddr::parse("aa:bb:cc:dd:ee:ff"),
        password: None,
        identity: None,
    }
}

#[test]
fn wifi_interface_follows_the_list() {
    let list = vec![iface("eth0", InterfaceType::Ethernet), iface("wlan3", InterfaceType::Wlan)];
    assert_eq!(clamp_wifi_iface(&list), Some("wlan3".to_string()));
    assert_eq!(clamp_wifi_iface(&vec![iface("eth0", InterfaceType::Ethernet)]), None);
}

#[test]
fn opening_edit_rows() {
    let list = vec![iface("eth0", InterfaceType::Ethernet), iface("eth1", InterfaceType::Ethernet)];
    let known = vec![saved("Home")];
    let rows = edit_rows(&list, &known);
    assert!(matches!(edit_open(&rows, 0, &list, &None), EditOpen::Nothing));
    assert!(matches!(edit_open(&rows, 2, &list, &None), EditOpen::Interface(1)));
    assert!(matches!(edit_open(&rows, 4, &list, &None), EditOpen::NoWifi));
    match edit_open(&rows, 4, &list, &Some("wlan0".to_string())) {
        EditOpen::Network(k, i) => {
            assert_eq!(k.ssid, "Home");
            assert_eq!(i, "wlan0");
        }
        _ => panic!("expected a network"),
    }
    assert!(matches!(edit_open(&rows, 99, &list, &None), EditOpen::Nothing));
    assert_eq!(delete_target(&rows, 1), None);
    assert_eq!(
        delete_target(&rows, 4),
        Some(("Home".to_string(), MacAddr::parse("aa:bb:cc:dd:ee:ff")))
    );
}

#[test]
fn creating_connections() {
    let list = vec![iface("wlan0", InterfaceType::Wlan)];
    assert!(matches!(create_step(0, &None, &list), CreateStep::WifiEditor(i) if i == "wlan0"));
    assert!(matches!(create_step(0, &None, &vec![]), CreateStep::NoWifi));
    match create_step(3, &None, &list) {
        CreateStep::Unsupported(m) => {
            assert_eq!(m, "Team connections are not supported by this daemon yet")
        }
        _ => panic!("expected a refusal"),
    }
}

#[test]
fn hostname_and_answers() {
    assert_eq!(hostname_to_save("  router \n"), Some("router".to_string()));
    assert_eq!(hostname_to_save("   "), None);
    assert_eq!(
        global_failure(&GlobalDaemonResponse::Error { message: "boom".to_string() }),
        Some("boom".to_string())
    );
    assert_eq!(
        global_failure(&GlobalDaemonResponse::WiFiInterfaceNotFound { iface: "wlan1".to_string() }),
        Some("Wi-Fi interface not found: wlan1".to_string())
    );
    assert_eq!(global_failure(&GlobalDaemonResponse::ShutdownAck), None);
}

#[test]
fn polling_a_connection() {
    assert!(matches!(poll_step("Home", Some(WpaState::Completed)), PollStep::Connected));
    assert!(matches!(poll_step("Home", Some(WpaState::Scanning)), PollStep::Waiting));
    assert!(matches!(poll_step("Home", None), PollStep::Waiting));
    match poll_step("Home", Some(WpaState::Disconnected)) {
        PollStep::Failed(m) => assert_eq!(m, format!("Home: {:?}", Some(WpaState::Disconnected))),
        _ => panic!("expected a failure"),
    }
    match poll_step("Home", Some(WpaState::InterfaceDisabled)) {
        PollStep::Failed(m) => assert_eq!(m, "Home: Some(InterfaceDisabled)"),
        _ => panic!("expected a failure"),
    }
}
