use libnetwork_daemon::editor::{
    signal_bars, ChoicePopup, ConnectionEditor, EditorField, IpMode, RoutingFamily, RoutingFocus,
    RoutingPopup,
};
use libnetwork_daemon::mac::MacAddr;
use libnetwork_daemon::network::{KnownNetwork, KnownNetworkState};
use libnetwork_daemon::security::Security;

#[test]
fn editor_validates_wifi_credentials() {
    let editor = ConnectionEditor::from_wifi("wlan0", None, None);
    assert!(editor.wifi_values().is_err());
}

#[test]
fn editor_focus_fields_match_visible_wifi_controls() {
    let mut editor = ConnectionEditor::from_wifi("wlan0", None, None);
    let fields = editor.fields();
    assert_eq!(fields.iter().filter(|field| **field == EditorField::ProfileName).count(), 1);
    assert_eq!(fields.iter().filter(|field| **field == EditorField::Device).count(), 1);
    assert!(!fields.contains(&EditorField::Identity));
    assert!(!fields.contains(&EditorField::Password));

    editor.security = Security::Psk;
    let fields = editor.fields();
    assert!(!fields.contains(&EditorField::Identity));
    assert!(fields.contains(&EditorField::Password));

    editor.security = Security::Eap;
    let fields = editor.fields();
    assert!(fields.contains(&EditorField::Identity));
    assert!(fields.contains(&EditorField::Password));
}

#[test]
fn signal_bars_have_stable_quality_buckets() {
    assert_eq!(signal_bars(-35), "▂▄▆█");
    assert_eq!(signal_bars(-55), "▂▄▆ ");
    assert_eq!(signal_bars(-70), "▂▄  ");
    assert_eq!(signal_bars(-85), "▂   ");
}

#[test]
fn signal_bars_bucket_edges_and_clamping() {
    assert_eq!(signal_bars(-10), "▂▄▆█");
    assert_eq!(signal_bars(-45), "▂▄▆█");
    assert_eq!(signal_bars(-46), "▂▄▆ ");
    assert_eq!(signal_bars(-60), "▂▄▆ ");
    assert_eq!(signal_bars(-61), "▂▄  ");
    assert_eq!(signal_bars(-75), "▂▄  ");
    assert_eq!(signal_bars(-76), "▂   ");
    assert_eq!(signal_bars(i32::MIN), "▂   ");
}

fn known(ssid: &str, security: Security) -> KnownNetwork {
    KnownNetwork {
        id: None,
        priority: 0,
        hidden: true,
        security,
        state: KnownNetworkState::Disabled,
        ssid: ssid.to_string(),
        bssid: MacAddr::parse("00:11:22:33:44:55"),
        password: Some("secret".to_string()),
        identity: Some("alice".to_string()),
    }
}

#[test]
fn wifi_values_checks_each_rule() {
    let mut e = ConnectionEditor::from_wifi("wlan0", None, None);
    assert_eq!(e.wifi_values().unwrap_err(), "SSID must not be empty");
    e.ssid = "  Home  ".to_string();
    e.bssid = "nonsense".to_string();
    assert_eq!(e.wifi_values().unwrap_err(), "BSSID must be aa:bb:cc:dd:ee:ff");
    e.bssid = " AA:BB:CC:DD:EE:FF ".to_string();
    e.security = Security::Psk;
    e.password = "short".to_string();
    assert_eq!(e.wifi_values().unwrap_err(), "WPA-PSK password must contain 8-63 bytes");
    e.password = "ééééé".to_string();
    assert!(e.wifi_values().is_ok());
    e.password = "x".repeat(64);
    assert!(e.wifi_values().is_err());
    e.password = "x".repeat(63);
    let (ssid, bssid, security) = e.wifi_values().unwrap();
    assert_eq!(ssid, "Home");
    assert_eq!(bssid, MacAddr::parse("aa:bb:cc:dd:ee:ff"));
    assert_eq!(security, Security::Psk);
    e.security = Security::Eap;
    e.identity = "  ".to_string();
    assert_eq!(e.wifi_values().unwrap_err(), "EAP identity must not be empty");
    e.identity = "bob".to_string();
    e.password = String::new();
    assert_eq!(e.wifi_values().unwrap_err(), "EAP password must not be empty");
    e.password = "p".to_string();
    assert!(e.wifi_values().is_ok());
}

#[test]
fn from_wifi_prefers_the_known_network_fields() {
    let k = known("Office", Security::Eap);
    let e = ConnectionEditor::from_wifi("wlan1", None, Some(&k));
    assert_eq!(e.ssid, "Office");
    assert_eq!(e.profile_name, "Office");
    assert_eq!(e.device, "wlan1");
    assert_eq!(e.bssid, "00:11:22:33:44:55");
    assert_eq!(e.identity, "alice");
    assert_eq!(e.password, "secret");
    assert!(e.hidden);
    assert!(!e.autoconnect);
    assert_eq!(e.security, Security::Eap);
}

#[test]
fn typing_and_backspace_touch_only_the_focused_text() {
    let mut e = ConnectionEditor::from_wifi("wlan0", None, None);
    e.type_char('a');
    e.type_char('b');
    assert_eq!(e.profile_name, "ab");
    e.backspace();
    assert_eq!(e.profile_name, "a");
    e.move_focus(4);
    assert_eq!(e.fields()[e.focus], EditorField::Security);
    e.type_char('z');
    assert_eq!(e.profile_name, "a");
    assert_eq!(e.ssid, "");
    e.move_focus(-100);
    assert_eq!(e.focus, 0);
    e.move_focus(1000);
    assert_eq!(e.focus, e.fields().len() - 1);
    assert_eq!(e.scroll as usize, e.focus - 8);
}

#[test]
fn tab_walks_fields_then_footer_and_back() {
    let mut e = ConnectionEditor::from_wifi("wlan0", None, None);
    let len = e.fields().len();
    e.tab_focus(true);
    assert!(e.footer);
    assert_eq!(e.footer_selected, 1);
    e.tab_focus(false);
    assert!(!e.footer);
    assert_eq!(e.focus, 0);
    for _ in 0..len - 1 {
        e.tab_focus(false);
    }
    assert_eq!(e.focus, len - 1);
    e.tab_focus(false);
    assert!(e.footer);
    assert_eq!(e.footer_selected, 0);
    e.tab_focus(true);
    assert!(!e.footer);
    assert_eq!(e.focus, len - 1);
}

#[test]
fn toggles_and_choices() {
    let mut e = ConnectionEditor::from_wifi("wlan0", None, None);
    assert!(e.slaac);
    e.toggle(EditorField::Slaac);
    assert!(!e.slaac);
    assert!(!e.bool_value(EditorField::Slaac));
    e.toggle(EditorField::Ssid);
    assert_eq!(e.text_value(EditorField::Ssid), "");
    let options = ConnectionEditor::choice_options(EditorField::Security).unwrap();
    assert_eq!(options.len(), 3);
    assert_eq!(e.choice_selected(EditorField::Security, &options), 0);
    assert!(ConnectionEditor::choice_options(EditorField::Hidden).is_none());
    e.move_focus(4);
    e.open_choice();
    assert!(e.choice.is_some());
    e.choice = Some(ChoicePopup { field: EditorField::Security, options, selected: 2 });
    e.apply_choice();
    assert!(e.choice.is_none());
    assert_eq!(e.security, Security::Eap);
    let modes = ConnectionEditor::choice_options(EditorField::Ipv4Mode).unwrap();
    assert_eq!(e.choice_selected(EditorField::Ipv4Mode, &modes), 0);
    e.ipv4_mode = IpMode::Ignore;
    assert_eq!(e.choice_selected(EditorField::Ipv4Mode, &modes), 2);
    assert_eq!(IpMode::Manual.label(), "Manual");
    assert_eq!(ConnectionEditor::field_label(EditorField::Hidden), "Hidden network");
    assert!(EditorField::Ipv6Routing.is_routing());
    assert!(EditorField::Ipv4Dns.is_text());
    assert!(EditorField::AvailableUsers.is_bool());
}

#[test]
fn routing_popup_navigation() {
    let mut p = RoutingPopup::new(
        RoutingFamily::Ipv4,
        vec!["10.0.0.0/8 192.168.1.1".to_string(), "172.16.0.0/12".to_string()],
    );
    assert_eq!(p.title(), "Edit IPv4 Routes");
    assert_eq!(p.placeholder(), "destination/prefix gateway");
    p.move_cursor(-1);
    assert_eq!(p.selected, 1);
    p.move_cursor(1);
    assert_eq!(p.selected, 0);
    p.tab(false);
    assert_eq!(p.focus, RoutingFocus::Add);
    p.move_cursor(-1);
    assert_eq!(p.focus, RoutingFocus::Accept);
    p.tab(false);
    assert_eq!(p.focus, RoutingFocus::List);
    p.tab(true);
    assert_eq!(p.focus, RoutingFocus::Accept);
    assert_eq!(RoutingFocus::Cancel.index(), 3);
    p.selected = 1;
    p.delete_selected();
    assert_eq!(p.routes.len(), 1);
    assert_eq!(p.selected, 0);
    p.delete_selected();
    assert!(p.routes.is_empty());
    p.delete_selected();
    p.begin_add();
    assert!(p.editing);

    let mut e = ConnectionEditor::from_wifi("wlan0", None, None);
    e.ipv6_routes = vec!["::/0 fe80::1".to_string()];
    e.open_routing(EditorField::Ipv6Routing);
    let popup = e.routing.take().unwrap();
    assert_eq!(popup.title(), "Edit IPv6 Routes");
    assert_eq!(popup.routes, vec!["::/0 fe80::1".to_string()]);
    e.apply_routing(RoutingPopup::new(RoutingFamily::Ipv4, vec!["0.0.0.0/0".to_string()]));
    assert_eq!(e.ipv4_routes, vec!["0.0.0.0/0".to_string()]);
    assert!(e.routing.is_none());
}
