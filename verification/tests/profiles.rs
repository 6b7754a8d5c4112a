use std::collections::BTreeMap;

use libnetwork_daemon::events::WpaEvent;
use libnetwork_daemon::status::SupplicantStatus;
use libnetwork_daemon::config::{DaemonConfig, InterfaceConfig, NetworkConfig};
use libnetwork_daemon::interface::{InterfaceInfo, InterfaceType, LinkOptions, WlanLinkOptions};
use libnetwork_daemon::links::{plan_auto_wlans, restore_round};
use libnetwork_daemon::mac::MacAddr;
use libnetwork_daemon::network::KnownNetworkState;
use libnetwork_daemon::persist::persisted_networks;
use libnetwork_daemon::security::Security;
use libnetwork_daemon::ssid::truncate_to_width;
use libnetwork_daemon::storage::{Credential, StoragePaths};

fn meta(ssid: &str, mac: Option<&str>, security: &str, priority: i32, enabled: bool) -> NetworkConfig {
    NetworkConfig {
        ssid: ssid.to_string(),
        interface_mac: mac.map(|m| m.to_string()),
        bssid: None,
        security: security.to_string(),
        hidden: false,
        priority,
        enabled,
    }
}

fn cred(ssid: &str, mac: Option<&str>, security: &str, psk: &str) -> Credential {
    Credential {
        ssid: ssid.to_string(),
        bssid: None,
        security: security.to_string(),
        psk: Some(psk.to_string()),
        identity: None,
        interface_mac: mac.map(|m| m.to_string()),
    }
}

#[test]
fn truncate_keeps_text_that_fits_in_narrow_width() {
    assert_eq!(truncate_to_width("Hi", 2), "Hi");
    assert_eq!(truncate_to_width("", 0), "");
    assert_eq!(truncate_to_width("Hello", 2), "");
    assert_eq!(truncate_to_width("Hello", 4), "H...");
}

#[test]
fn storage_paths_follow_path_join() {
    let root = StoragePaths { runtime_dir: String::new(), config_dir: String::new() };
    assert_eq!(root.secret_key_path(), "secret.key");
    let slash = StoragePaths { runtime_dir: String::new(), config_dir: "/".to_string() };
    assert_eq!(slash.db_path(), "/credentials.db");
}

#[test]
fn persisted_networks_merge_scope_and_sort() {
    let mac = MacAddr::new([0xaa, 0xbb, 0xcc, 0xdd, 0xee, 0xff]);
    let config = DaemonConfig {
        networks: vec![
            meta("Zeta", Some("aa:bb:cc:dd:ee:ff"), "PSK", 5, true),
            meta("Alpha", Some("aa:bb:cc:dd:ee:ff"), "Open", 1, false),
            meta("Other", Some("11:22:33:44:55:66"), "PSK", 9, true),
            meta("Legacy", None, "PSK", 3, true),
        ],
        interface: BTreeMap::new(),
    };
    let credentials = vec![
        cred("Zeta", None, "PSK", "old"),
        cred("Zeta", None, "Psk", "new"),
        cred("Beta", None, "PSK", "beta-pass"),
    ];
    let r = persisted_networks(&config, &credentials, Some(mac));
    let names: Vec<&str> = r.iter().map(|n| n.ssid.as_str()).collect();
    // Config has entries scoped to this MAC, so the unscoped "Legacy" and the
    // other interface's entry are left out; the credential store has no
    // scoped entry, so its unscoped credentials count.
    assert_eq!(names, vec!["Alpha", "Beta", "Zeta"]);
    assert_eq!(r[0].state, KnownNetworkState::Disabled);
    assert_eq!(r[0].priority, 1);
    assert_eq!(r[0].security, Security::Open);
    assert_eq!(r[0].password, None);
    assert_eq!(r[1].priority, 0);
    assert_eq!(r[1].state, KnownNetworkState::Enabled);
    assert_eq!(r[1].password.as_deref(), Some("beta-pass"));
    assert_eq!(r[2].priority, 5);
    assert_eq!(r[2].password.as_deref(), Some("new"));
}

#[test]
fn persisted_networks_without_interface_use_unscoped_entries() {
    let config = DaemonConfig {
        networks: vec![
            meta("Scoped", Some("aa:bb:cc:dd:ee:ff"), "PSK", 5, true),
            meta("Plain", None, "EAP", 2, true),
        ],
        interface: BTreeMap::new(),
    };
    let r = persisted_networks(&config, &Vec::new(), None);
    assert_eq!(r.len(), 1);
    assert_eq!(r[0].ssid, "Plain");
    assert_eq!(r[0].security, Security::Eap);
}

fn wlan_on(id: u32, name: &str, parent: &str) -> InterfaceInfo {
    let mut info = InterfaceInfo::new(id, name);
    info.interface_type = InterfaceType::Wlan;
    info.parent = Some(parent.to_string());
    info
}

fn settings(create_wlan: bool, creation: Option<LinkOptions>) -> InterfaceConfig {
    InterfaceConfig { slaac: false, dhcpv4: true, create_wlan, wlan: None, creation }
}

#[test]
fn auto_wlans_skip_configured_devices_and_take_free_names() {
    let devices: Vec<String> =
        ["ath0", "iwm0", "iwn0", "rtwn0", "run0"].iter().map(|s| s.to_string()).collect();
    let interfaces = vec![wlan_on(1, "wlan0", "ath0"), InterfaceInfo::new(2, "wlan2")];
    let mut interface = BTreeMap::new();
    interface.insert("iwn0".to_string(), settings(false, None));
    interface.insert(
        "wlan7".to_string(),
        settings(
            true,
            Some(LinkOptions::Wlan { parent: "rtwn0".to_string(), options: WlanLinkOptions::default() }),
        ),
    );
    let config = DaemonConfig { networks: Vec::new(), interface };
    let r = plan_auto_wlans(&devices, &interfaces, &config);
    assert_eq!(
        r,
        vec![
            ("wlan1".to_string(), "iwm0".to_string()),
            ("wlan3".to_string(), "run0".to_string()),
        ]
    );
}

#[test]
fn restore_round_defers_failures_and_skips_existing() {
    let pending = vec![
        ("bridge0".to_string(), LinkOptions::Bridge { members: Vec::new() }),
        ("vlan5".to_string(), LinkOptions::Vlan { parent: "em0".to_string(), tag: 5 }),
        ("bridge1".to_string(), LinkOptions::Bridge { members: vec!["em1".to_string()] }),
    ];
    let existing = vec!["bridge0".to_string(), "em0".to_string()];
    let (deferred, again) = restore_round(pending, &existing, &vec![true, false, true]);
    assert_eq!(deferred.len(), 1);
    assert_eq!(deferred[0].0, "vlan5");
    assert!(again);

    let pending = vec![("vlan6".to_string(), LinkOptions::Vlan { parent: "em9".to_string(), tag: 6 })];
    let (deferred, again) = restore_round(pending, &existing, &vec![false]);
    assert_eq!(deferred.len(), 1);
    assert!(!again);
}

#[test]
fn set_creation_keeps_other_settings() {
    let mut interface = BTreeMap::new();
    interface.insert(
        "em0".to_string(),
        InterfaceConfig { slaac: true, dhcpv4: false, create_wlan: true, wlan: None, creation: None },
    );
    let mut config = DaemonConfig { networks: Vec::new(), interface };
    config.set_creation(&"em0".to_string(), LinkOptions::Bridge { members: Vec::new() });
    config.set_creation(&"bridge0".to_string(), LinkOptions::Bridge { members: Vec::new() });
    let em0 = &config.interface["em0"];
    assert!(em0.slaac);
    assert!(!em0.dhcpv4);
    assert!(matches!(em0.creation, Some(LinkOptions::Bridge { .. })));
    let bridge0 = &config.interface["bridge0"];
    assert!(!bridge0.slaac);
    assert!(bridge0.dhcpv4);
    assert!(bridge0.create_wlan);
    assert!(matches!(bridge0.creation, Some(LinkOptions::Bridge { .. })));
}

#[test]
fn priority_prefix_does_not_change_the_event() {
    let msg = "CTRL-EVENT-CONNECTED - Connection to 00:11:22:33:44:55 completed";
    assert_eq!(WpaEvent::parse(&format!("<3>{msg}")), WpaEvent::parse(msg));
    assert_eq!(WpaEvent::parse("<2>SOMETHING-NEW"), WpaEvent::Unknown("<2>SOMETHING-NEW".to_string()));
}

#[test]
fn ignored_status_line_changes_nothing() {
    let base = "bssid=00:11:22:33:44:55\nssid=Home\nwpa_state=COMPLETED";
    let a = SupplicantStatus::parse(base);
    let b = SupplicantStatus::parse(&format!("{base}\nuuid=1234"));
    assert_eq!(a.bssid, b.bssid);
    assert_eq!(a.ssid, b.ssid);
    assert_eq!(a.state, b.state);
    assert_eq!(a.security, b.security);
}

#[test]
fn mac_parse_ignores_case_and_padding() {
    let lower = MacAddr::parse("aa:bb:cc:dd:ee:ff");
    assert_eq!(MacAddr::parse("AA:BB:CC:DD:EE:FF"), lower);
    assert_eq!(MacAddr::parse(" aa:bb:cc:dd:ee:ff "), lower);
}
