use libnetwork_daemon::error::WifiError;
use libnetwork_daemon::known::{select_known_candidate, validate_registration, KnownSsidEntry};
use libnetwork_daemon::mac::MacAddr;
use libnetwork_daemon::network::{KnownNetwork, KnownNetworkState, ScanFlags, ScanResult};
use libnetwork_daemon::security::Security;

fn mac(s: &str) -> MacAddr {
    MacAddr::parse(s).unwrap()
}

fn scan(ssid: &str, bssid: &str, signal: i32) -> ScanResult {
    ScanResult {
        freq: 2412,
        signal,
        bssid: mac(bssid),
        ssid: ssid.to_string(),
        security: Security::Psk,
        flags: ScanFlags::empty(),
    }
}

fn known(ssid: &str, bssid: Option<&str>, priority: i32) -> KnownNetwork {
    KnownNetwork {
        id: None,
        priority,
        hidden: false,
        security: Security::Psk,
        state: KnownNetworkState::Enabled,
        ssid: ssid.to_string(),
        bssid: bssid.map(mac),
        password: Some("password1".to_string()),
        identity: None,
    }
}

#[test]
fn registration_checks_credentials() {
    assert!(validate_registration(Security::Open, &None, &None).is_ok());
    assert!(matches!(
        validate_registration(Security::Psk, &None, &None),
        Err(WifiError::InvalidPasswordLength { min: 8, max: 63 })
    ));
    assert!(validate_registration(Security::Psk, &Some("1234567".to_string()), &None).is_err());
    assert!(validate_registration(Security::Psk, &Some("12345678".to_string()), &None).is_ok());
    assert!(validate_registration(Security::Psk, &Some("é".repeat(32)), &None).is_err());
    assert!(matches!(
        validate_registration(Security::Eap, &None, &None),
        Err(WifiError::NotSupported(m)) if m == "EAP requires identity during registration"
    ));
    assert!(validate_registration(Security::Eap, &None, &Some("me".to_string())).is_ok());
}

#[test]
fn requested_bssid_must_be_registered() {
    let mut entry = KnownSsidEntry { no_bssid: None, by_bssid: Vec::new() };
    entry.register(known("Home", Some("00:00:00:00:00:01"), 1));
    let scans = vec![scan("Home", "00:00:00:00:00:01", -40)];
    let (b, k) = select_known_candidate(Some(&entry), &scans, "Home", Some(mac("00:00:00:00:00:01"))).unwrap();
    assert_eq!(b, mac("00:00:00:00:00:01"));
    assert_eq!(k.priority, 1);
    assert!(matches!(
        select_known_candidate(Some(&entry), &scans, "Home", Some(mac("00:00:00:00:00:02"))),
        Err(WifiError::KnownNetworkNotFound { bssid: Some(_), .. })
    ));
    assert!(matches!(
        select_known_candidate(None, &scans, "Home", None),
        Err(WifiError::KnownNetworkNotFound { bssid: None, .. })
    ));
}

#[test]
fn strongest_registered_bssid_wins_and_ties_keep_scan_order() {
    let mut entry = KnownSsidEntry { no_bssid: None, by_bssid: Vec::new() };
    entry.register(known("Home", Some("00:00:00:00:00:01"), 1));
    entry.register(known("Home", Some("00:00:00:00:00:02"), 2));
    entry.register(known("Home", Some("00:00:00:00:00:03"), 3));
    let scans = vec![
        scan("Other", "00:00:00:00:00:09", -10),
        scan("Home", "00:00:00:00:00:04", -20),
        scan("Home", "00:00:00:00:00:01", -60),
        scan("Home", "00:00:00:00:00:02", -50),
        scan("Home", "00:00:00:00:00:03", -50),
    ];
    let (b, k) = select_known_candidate(Some(&entry), &scans, "Home", None).unwrap();
    assert_eq!(b, mac("00:00:00:00:00:02"));
    assert_eq!(k.priority, 2);
    let none = vec![scan("Home", "00:00:00:00:00:07", -30)];
    assert!(matches!(
        select_known_candidate(Some(&entry), &none, "Home", None),
        Err(WifiError::SsidUnavailable { .. })
    ));
    assert!(matches!(
        select_known_candidate(Some(&entry), &Vec::new(), "Home", None),
        Err(WifiError::SsidUnavailable { .. })
    ));
}

#[test]
fn single_scan_uses_network_for_any_bssid() {
    let mut entry = KnownSsidEntry { no_bssid: None, by_bssid: Vec::new() };
    let one = vec![scan("Cafe", "00:00:00:00:00:05", -70)];
    assert!(matches!(
        select_known_candidate(Some(&entry), &one, "Cafe", None),
        Err(WifiError::KnownNetworkNotFound { bssid: None, .. })
    ));
    entry.register(known("Cafe", None, 4));
    let (b, k) = select_known_candidate(Some(&entry), &one, "Cafe", None).unwrap();
    assert_eq!(b, mac("00:00:00:00:00:05"));
    assert_eq!(k.bssid, Some(mac("00:00:00:00:00:05")));
    assert_eq!(k.priority, 4);
    let two = vec![scan("Cafe", "00:00:00:00:00:05", -70), scan("Cafe", "00:00:00:00:00:06", -60)];
    assert!(matches!(
        select_known_candidate(Some(&entry), &two, "Cafe", None),
        Err(WifiError::BssidRequired { .. })
    ));
}

#[test]
fn register_replaces_and_remove_gives_back() {
    let mut entry = KnownSsidEntry { no_bssid: None, by_bssid: Vec::new() };
    assert!(entry.register(known("Home", Some("00:00:00:00:00:01"), 1)).is_none());
    let prev = entry.register(known("Home", Some("00:00:00:00:00:01"), 5)).unwrap();
    assert_eq!(prev.priority, 1);
    assert_eq!(entry.by_bssid.len(), 1);
    assert!(entry.register(known("Home", None, 2)).is_none());
    assert_eq!(entry.get(mac("00:00:00:00:00:01")).unwrap().priority, 5);
    assert_eq!(entry.remove(Some(mac("00:00:00:00:00:01"))).unwrap().priority, 5);
    assert!(entry.remove(Some(mac("00:00:00:00:00:01"))).is_none());
    assert!(!entry.is_empty());
    assert_eq!(entry.remove(None).unwrap().priority, 2);
    assert!(entry.is_empty());
}
