use libnetwork_daemon::editor::{signal_bars, WifiTarget};
use libnetwork_daemon::interface::{InterfaceInfo, InterfaceType};
use libnetwork_daemon::mac::MacAddr;
use libnetwork_daemon::network::{KnownNetwork, KnownNetworkState, ScanFlags, ScanResult};
use libnetwork_daemon::rows::{
    activation_button_label, activation_rows, activation_step, edit_rows, first_target,
    first_wifi, interface_toggle, move_main, next_target, wifi_start, ActivationStep,
    ActivationTarget, EditTarget, InterfaceToggle, WifiStart,
};
use libnetwork_daemon::security::Security;
use libnetwork_daemon::state::ConnectionState;
use libnetwork_daemon::status::{SupplicantStatus, WpaState};

fn ethernet(name: &str, state: ConnectionState) -> InterfaceInfo {
    let mut info = InterfaceInfo::new(1, name);
    info.interface_type = InterfaceType::Ethernet;
    info.state = state;
    info
}

fn wlan(name: &str, state: ConnectionState) -> InterfaceInfo {
    let mut info = ethernet(name, state);
    info.interface_type = InterfaceType::Wlan;
    info
}

fn home_scan() -> ScanResult {
    ScanResult {
        freq: 2412,
        signal: -42,
        bssid: MacAddr::parse("aa:bb:cc:dd:ee:ff").unwrap(),
        ssid: "Home".to_string(),
        security: Security::Psk,
        flags: ScanFlags::empty(),
    }
}

fn saved(ssid: &str, state: KnownNetworkState, bssid: Option<&str>) -> KnownNetwork {
    KnownNetwork {
        id: Some(0),
        priority: 0,
        hidden: false,
        security: Security::Psk,
        state,
        ssid: ssid.to_string(),
        bssid: bssid.map(|b| MacAddr::parse(b).unwrap()),
        password: None,
        identity: None,
    }
}

fn labels_of_edit(interfaces: &Vec<InterfaceInfo>, known: &Vec<KnownNetwork>) -> Vec<String> {
    edit_rows(interfaces, known).into_iter().map(|r| r.label).collect()
}

#[test]
fn edit_screen_groups_profiles_and_buttons() {
    let interfaces = vec![ethernet("em0", ConnectionState::Connected)];
    let labels = labels_of_edit(&interfaces, &vec![]);
    let text = labels.join("\n");
    assert!(text.contains("Ethernet"));
    assert!(text.contains("em0"));
    assert!(text.contains("Wi-Fi"));
}

#[test]
fn edit_rows_list_wired_interfaces_and_saved_networks() {
    let mut lo = ethernet("lo", ConnectionState::Up);
    lo.interface_type = InterfaceType::Loopback;
    let interfaces = vec![
        lo,
        ethernet("em0", ConnectionState::Connected),
        wlan("wlan0", ConnectionState::Connected),
        ethernet("em1", ConnectionState::Disconnected),
    ];
    let known = vec![
        saved("Home", KnownNetworkState::Current, None),
        saved("Office", KnownNetworkState::Enabled, None),
    ];
    let rows = edit_rows(&interfaces, &known);
    let labels: Vec<&str> = rows.iter().map(|r| r.label.as_str()).collect();
    assert_eq!(
        labels,
        [
            "Ethernet",
            "  * em0",
            "  em1",
            "Wi-Fi",
            "  * Home",
            "  Office",
            "Bluetooth",
            "  (no saved connections)",
        ]
    );
    assert!(matches!(&rows[1].target, Some(EditTarget::Interface(n)) if n == "em0"));
    assert!(matches!(&rows[5].target, Some(EditTarget::Network(k)) if k.ssid == "Office"));
    let targets: Vec<bool> = rows.iter().map(|r| r.target.is_some()).collect();
    assert_eq!(targets, [false, true, true, false, true, true, false, false]);
}

#[test]
fn edit_rows_without_saved_networks() {
    let labels = labels_of_edit(&vec![], &vec![]);
    assert_eq!(
        labels,
        [
            "Ethernet",
            "Wi-Fi",
            "  (no saved connections)",
            "Bluetooth",
            "  (no saved connections)",
        ]
    );
}

#[test]
fn activation_screen_renders_groups_and_signal_bars() {
    let interfaces = vec![wlan("wlan0", ConnectionState::Disconnected)];
    let rows = activation_rows(&interfaces, &vec![home_scan()], &None, &None);
    let labels: Vec<&str> = rows.iter().map(|r| r.label.as_str()).collect();
    assert_eq!(
        labels,
        ["Ethernet", "Wi-Fi", "  Home  PSK", "Bluetooth", "  (no Bluetooth connections)"]
    );
    assert_eq!(rows[2].signal, Some(-42));
    assert_eq!(signal_bars(rows[2].signal.unwrap()), "▂▄▆█");
    match &rows[2].target {
        Some(ActivationTarget::Wifi(t)) => {
            assert_eq!(t.iface, "wlan0");
            assert_eq!(t.ssid, "Home");
            assert_eq!(t.bssid, MacAddr::parse("aa:bb:cc:dd:ee:ff"));
            assert_eq!(t.security, Security::Psk);
            assert!(!t.hidden);
        }
        _ => panic!("expected a Wi-Fi target"),
    }
    let has_target: Vec<bool> = rows.iter().map(|r| r.target.is_some()).collect();
    let first = first_target(&has_target);
    assert_eq!(first, Some(2));
    assert_eq!(activation_button_label(&rows, 2, &interfaces, &None), "Activate");
}

#[test]
fn activation_screen_uses_deactivate_for_current_wifi() {
    let interfaces = vec![wlan("wlan0", ConnectionState::Connected)];
    let status = Some(SupplicantStatus {
        state: Some(WpaState::Completed),
        ssid: Some("Home".to_string()),
        ..SupplicantStatus::default()
    });
    let rows = activation_rows(&interfaces, &vec![home_scan()], &None, &status);
    assert_eq!(rows[2].label, "  * Home  PSK");
    assert_eq!(activation_button_label(&rows, 2, &interfaces, &status), "Deactivate");
    assert!(matches!(
        activation_step(&rows, 2, &status),
        ActivationStep::Disconnect(iface) if iface == "wlan0"
    ));
}

#[test]
fn activation_screen_uses_deactivate_for_active_ethernet() {
    let interfaces = vec![ethernet("eth0", ConnectionState::Connected)];
    let rows = activation_rows(&interfaces, &vec![], &None, &None);
    assert_eq!(rows[1].label, "  * Wired connection 1 (eth0)");
    assert_eq!(activation_button_label(&rows, 1, &interfaces, &None), "Deactivate");
    assert_eq!(rows[3].label, "  (no wireless networks found)");
}

#[test]
fn activation_label_activate_for_idle_interface_and_out_of_range() {
    let interfaces = vec![ethernet("eth0", ConnectionState::Disconnected)];
    let rows = activation_rows(&interfaces, &vec![], &None, &None);
    assert_eq!(rows[1].label, "  Wired connection 1 (eth0)");
    assert_eq!(activation_button_label(&rows, 1, &interfaces, &None), "Activate");
    assert_eq!(activation_button_label(&rows, 0, &interfaces, &None), "Activate");
    assert_eq!(activation_button_label(&rows, 99, &interfaces, &None), "Activate");
    assert!(matches!(activation_step(&rows, 99, &None), ActivationStep::Nothing));
    assert!(matches!(activation_step(&rows, 0, &None), ActivationStep::Nothing));
    assert!(matches!(
        activation_step(&rows, 1, &None),
        ActivationStep::Interface(n) if n == "eth0"
    ));
}

#[test]
fn activation_rows_skip_scans_without_wifi_interface() {
    let interfaces = vec![ethernet("eth0", ConnectionState::Disconnected)];
    let rows = activation_rows(&interfaces, &vec![home_scan()], &None, &None);
    let labels: Vec<&str> = rows.iter().map(|r| r.label.as_str()).collect();
    assert_eq!(
        labels,
        [
            "Ethernet",
            "  Wired connection 1 (eth0)",
            "Wi-Fi",
            "Bluetooth",
            "  (no Bluetooth connections)",
        ]
    );
    let chosen = Some("wlan9".to_string());
    let rows = activation_rows(&interfaces, &vec![home_scan()], &chosen, &None);
    match &rows[3].target {
        Some(ActivationTarget::Wifi(t)) => assert_eq!(t.iface, "wlan9"),
        _ => panic!("expected a Wi-Fi target"),
    }
    assert!(matches!(
        activation_step(&rows, 3, &None),
        ActivationStep::Connect(t) if t.ssid == "Home" && t.iface == "wlan9"
    ));
}

#[test]
fn first_wifi_prefers_chosen_then_first_wlan() {
    let interfaces = vec![
        ethernet("eth0", ConnectionState::Up),
        wlan("wlan1", ConnectionState::Up),
        wlan("wlan2", ConnectionState::Up),
    ];
    assert_eq!(first_wifi(&None, &interfaces), Some("wlan1".to_string()));
    assert_eq!(first_wifi(&Some("wlan2".to_string()), &interfaces), Some("wlan2".to_string()));
    assert_eq!(first_wifi(&None, &vec![ethernet("eth0", ConnectionState::Up)]), None);
}

#[test]
fn selection_wraps_to_next_target() {
    let t = vec![false, true, true, false, true, false, false];
    assert_eq!(first_target(&t), Some(1));
    assert_eq!(next_target(&t, 1, 1), 2);
    assert_eq!(next_target(&t, 2, 1), 4);
    assert_eq!(next_target(&t, 4, 1), 1);
    assert_eq!(next_target(&t, 1, -1), 4);
    assert_eq!(next_target(&t, 4, -1), 2);
}

#[test]
fn selection_stays_without_targets() {
    let t = vec![false, false, false];
    assert_eq!(first_target(&t), None);
    assert_eq!(next_target(&t, 1, 1), 1);
    assert_eq!(next_target(&vec![], 5, -1), 5);
    assert_eq!(next_target(&vec![true], 0, 1), 0);
}

#[test]
fn main_menu_selection_stops_at_the_ends() {
    assert_eq!(move_main(0, -1), 0);
    assert_eq!(move_main(0, 1), 1);
    assert_eq!(move_main(3, 1), 3);
    assert_eq!(move_main(2, -1), 1);
}

#[test]
fn interface_toggle_decisions() {
    let mut lo = ethernet("lo", ConnectionState::Up);
    lo.interface_type = InterfaceType::Loopback;
    let interfaces = vec![
        lo,
        ethernet("eth0", ConnectionState::Connected),
        ethernet("eth1", ConnectionState::Disconnected),
    ];
    assert_eq!(interface_toggle(&interfaces, &"lo".to_string()), InterfaceToggle::Loopback);
    assert_eq!(interface_toggle(&interfaces, &"eth0".to_string()), InterfaceToggle::SetUp(false));
    assert_eq!(interface_toggle(&interfaces, &"eth1".to_string()), InterfaceToggle::SetUp(true));
    assert_eq!(interface_toggle(&interfaces, &"eth9".to_string()), InterfaceToggle::Missing);
}

#[test]
fn wifi_start_decisions() {
    let target = WifiTarget {
        iface: "wlan0".to_string(),
        ssid: "Home".to_string(),
        bssid: MacAddr::parse("aa:bb:cc:dd:ee:ff"),
        security: Security::Psk,
        hidden: false,
    };
    assert_eq!(wifi_start(&vec![], &target, false), WifiStart::AskPassword);
    assert_eq!(wifi_start(&vec![], &target, true), WifiStart::AddThenConnect);
    let any_bssid = vec![saved("Home", KnownNetworkState::Enabled, None)];
    assert_eq!(wifi_start(&any_bssid, &target, false), WifiStart::Connect);
    let other_bssid = vec![saved("Home", KnownNetworkState::Enabled, Some("00:11:22:33:44:55"))];
    assert_eq!(wifi_start(&other_bssid, &target, false), WifiStart::AskPassword);
    let same_bssid = vec![saved("Home", KnownNetworkState::Enabled, Some("aa:bb:cc:dd:ee:ff"))];
    assert_eq!(wifi_start(&same_bssid, &target, false), WifiStart::Connect);
    let open = WifiTarget { security: Security::Open, ..target };
    assert_eq!(wifi_start(&vec![], &open, false), WifiStart::AddThenConnect);
}
