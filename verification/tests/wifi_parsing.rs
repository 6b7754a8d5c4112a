use libnetwork_daemon::events::{WpaEvent, WpaTempDisabledReason};
use libnetwork_daemon::mac::MacAddr;
use libnetwork_daemon::network::{
    filter_by_ssid, filter_known_by_ssid, sort_by_priority, sort_by_signal, KnownNetwork,
    KnownNetworkState, ScanFlags, ScanResult,
};
use libnetwork_daemon::security::Security;
use libnetwork_daemon::status::SupplicantStatus;

#[test]
fn parse_valid_lowercase() {
    let mac = MacAddr::parse("aa:bb:cc:dd:ee:ff").unwrap();
    assert_eq!(mac.to_string(), "aa:bb:cc:dd:ee:ff");
}

#[test]
fn parse_is_case_insensitive_and_trimmed() {
    let mac = MacAddr::parse("  AA:BB:CC:DD:EE:FF ").unwrap();
    assert_eq!(mac.to_string(), "aa:bb:cc:dd:ee:ff");
}

#[test]
fn parse_rejects_bad_length_and_format() {
    assert!(MacAddr::parse("aa:bb:cc:dd:ee").is_none());
    assert!(MacAddr::parse("aa:bb:cc:dd:ee:ff:00").is_none());
    assert!(MacAddr::parse("zz:bb:cc:dd:ee:ff").is_none());
    assert!(MacAddr::parse("").is_none());
}

#[test]
fn bytes_round_trip() {
    let mac = MacAddr::new([1, 2, 3, 4, 5, 6]);
    assert_eq!(mac.as_bytes(), [1, 2, 3, 4, 5, 6]);
}

#[test]
fn mac_text_round_trip_on_values() {
    let mac = MacAddr::new([0x0a, 0xff, 0x00, 0x10, 0x7f, 0xc3]);
    let text = mac.to_string();
    assert_eq!(text, "0a:ff:00:10:7f:c3");
    assert_eq!(MacAddr::parse(&text), Some(mac));
}

#[test]
fn mac_parse_accepts_plus_sign_and_single_digits() {
    // u8::from_str_radix accepts a leading '+' and one-digit fields.
    let mac = MacAddr::parse("+a:b:c:d:e:f").unwrap();
    assert_eq!(mac.as_bytes(), [10, 11, 12, 13, 14, 15]);
    assert!(MacAddr::parse("-a:b:c:d:e:f").is_none());
    assert!(MacAddr::parse("100:b:c:d:e:f").is_none());
}

#[test]
fn test_parse_connected() {
    let raw = "<3>CTRL-EVENT-CONNECTED - Connection to aa:bb:cc:dd:ee:ff \
               completed [id=0]";
    let event = WpaEvent::parse(raw);
    assert_eq!(
        event,
        WpaEvent::Connected {
            bssid: "aa:bb:cc:dd:ee:ff".to_string()
        }
    );
}

#[test]
fn test_parse_disconnected() {
    let raw = "<3>CTRL-EVENT-DISCONNECTED bssid=aa:bb:cc:dd:ee:ff reason=3";
    let event = WpaEvent::parse(raw);
    assert_eq!(
        event,
        WpaEvent::Disconnected {
            bssid: Some("aa:bb:cc:dd:ee:ff".to_string()),
            reason: Some(3)
        }
    );
}

#[test]
fn test_parse_scan_results() {
    let raw = "<3>CTRL-EVENT-SCAN-RESULTS";
    assert_eq!(WpaEvent::parse(raw), WpaEvent::ScanResults);
}

#[test]
fn test_parse_temp_disabled() {
    let raw = "<3>CTRL-EVENT-SSID-TEMP-DISABLED id=0 ssid=\"TestNetwork\" \
               auth_failures=3 duration=30 reason=WRONG_KEY";
    let event = WpaEvent::parse(raw);
    assert_eq!(
        event,
        WpaEvent::TempDisabled {
            ssid: "TestNetwork".to_string(),
            reason: WpaTempDisabledReason::AuthFailure
        }
    );
}

#[test]
fn test_parse_associated() {
    let raw = "Associated with aa:bb:cc:dd:ee:ff";
    assert_eq!(
        WpaEvent::parse(raw),
        WpaEvent::Associated {
            bssid: "aa:bb:cc:dd:ee:ff".to_string()
        }
    );
}

#[test]
fn test_parse_unknown() {
    let raw = "SOME-UNKNOWN-EVENT data";
    assert_eq!(
        WpaEvent::parse(raw),
        WpaEvent::Unknown("SOME-UNKNOWN-EVENT data".to_string())
    );
}

#[test]
fn test_parse_bss_removed() {
    let raw = "<3>CTRL-EVENT-BSS-REMOVED 117 78:44:fd:4d:c2:b2";
    assert_eq!(
        WpaEvent::parse(raw),
        WpaEvent::BssRemoved {
            bssid: "78:44:fd:4d:c2:b2".to_string()
        }
    );
}

#[test]
fn test_parse_state_change() {
    let raw = "<3>CTRL-EVENT-STATE-CHANGE id=0 state=COMPLETED old_state=SCANNING";
    assert_eq!(
        WpaEvent::parse(raw),
        WpaEvent::StateChange {
            old: "SCANNING".to_string(),
            new: "COMPLETED".to_string()
        }
    );
}

#[test]
fn test_parse_disconnected_without_reason() {
    let raw = "<2>CTRL-EVENT-DISCONNECTED bssid=aa:bb:cc:dd:ee:ff";
    assert_eq!(
        WpaEvent::parse(raw),
        WpaEvent::Disconnected {
            bssid: Some("aa:bb:cc:dd:ee:ff".to_string()),
            reason: None
        }
    );
}

#[test]
fn test_parse_scan_started_and_failed() {
    assert_eq!(WpaEvent::parse("CTRL-EVENT-SCAN-STARTED"), WpaEvent::ScanStarted);
    assert_eq!(
        WpaEvent::parse("CTRL-EVENT-SCAN-FAILED ret=-1"),
        WpaEvent::ScanFailed
    );
}

#[test]
fn test_parse_ok() {
    assert_eq!(WpaEvent::parse("OK"), WpaEvent::CommandOk);
}

#[test]
fn test_parse_priority_less_connected() {
    let raw = "CTRL-EVENT-CONNECTED - Connection to 11:22:33:44:55:66 completed";
    assert_eq!(
        WpaEvent::parse(raw),
        WpaEvent::Connected {
            bssid: "11:22:33:44:55:66".to_string()
        }
    );
}

#[test]
fn test_parse_temp_disabled_unknown_reason() {
    let raw = "<3>CTRL-EVENT-SSID-TEMP-DISABLED id=0 ssid=\"X\" reason=NOPE";
    assert_eq!(
        WpaEvent::parse(raw),
        WpaEvent::TempDisabled {
            ssid: "X".to_string(),
            reason: WpaTempDisabledReason::Unknown("NOPE".to_string())
        }
    );
}

#[test]
fn event_network_not_found_and_unterminated_priority() {
    assert_eq!(
        WpaEvent::parse("<3>CTRL-EVENT-NETWORK-NOT-FOUND"),
        WpaEvent::NetworkNotFound
    );
    // Without a closing '>', the message is kept whole.
    assert_eq!(
        WpaEvent::parse("<3CTRL-EVENT-SCAN-RESULTS"),
        WpaEvent::Unknown("<3CTRL-EVENT-SCAN-RESULTS".to_string())
    );
    assert_eq!(
        WpaEvent::parse("<1>CTRL-EVENT-CONNECTED"),
        WpaEvent::Connected { bssid: String::new() }
    );
}

#[test]
fn temp_disabled_reason_parse() {
    assert_eq!(
        WpaTempDisabledReason::parse("AUTH_FAILURE"),
        WpaTempDisabledReason::AuthFailure
    );
    assert_eq!(
        WpaTempDisabledReason::parse("ASSOCIATION_FAILURE"),
        WpaTempDisabledReason::AssociationFailure
    );
    assert_eq!(
        WpaTempDisabledReason::parse("NO_NETWORK"),
        WpaTempDisabledReason::NoNetwork
    );
}

#[test]
fn test_parse_scan_flags() {
    let flags = ScanFlags::parse("[WPA2-PSK-CCMP][ESS]");
    assert!(flags.contains(ScanFlags::WPA2));
    assert!(flags.contains(ScanFlags::PERSONAL));
    assert!(flags.contains(ScanFlags::CCMP));
    assert!(flags.contains(ScanFlags::ESS));
    assert!(!flags.contains(ScanFlags::WPA));
    assert!(!flags.contains(ScanFlags::WEP));

    let flags = ScanFlags::parse("[WPA2-PSK+SAE-CCMP][SAE-H2E][ESS]");
    assert!(flags.contains(ScanFlags::WPA2));
    assert!(flags.contains(ScanFlags::WPA3));
    assert!(flags.contains(ScanFlags::PERSONAL));
    assert!(flags.contains(ScanFlags::CCMP));
    assert!(flags.contains(ScanFlags::ESS));

    let flags = ScanFlags::parse("[WPA-PSK-CCMP][WPA2-PSK-CCMP][WPS][ESS]");
    assert!(flags.contains(ScanFlags::WPA));
    assert!(flags.contains(ScanFlags::WPA2));
    assert!(flags.contains(ScanFlags::PERSONAL));
    assert!(flags.contains(ScanFlags::CCMP));
    assert!(flags.contains(ScanFlags::WPS));
    assert!(flags.contains(ScanFlags::ESS));
}

#[test]
fn scan_flags_are_case_insensitive() {
    let flags = ScanFlags::parse("[wpa2-psk-ccmp][ess]");
    assert_eq!(flags.bits(), ScanFlags::WPA2 | ScanFlags::PERSONAL | ScanFlags::CCMP | ScanFlags::ESS);
    assert_eq!(ScanFlags::from_upper("[ibss][P2P]").bits(), ScanFlags::P2P);
}

fn scan(freq: i32, signal: i32, bssid: &str, ssid: &str) -> ScanResult {
    ScanResult {
        freq,
        signal,
        bssid: MacAddr::parse(bssid).unwrap(),
        ssid: ssid.to_string(),
        security: Security::Open,
        flags: ScanFlags::default(),
    }
}

#[test]
fn test_parse_scan_result() {
    let line = "aa:bb:cc:dd:ee:ff\t2412\t-50\t[WPA2-PSK-CCMP][ESS]\tTestNetwork";
    let result = ScanResult::parse(line).unwrap();
    assert_eq!(result.bssid.to_string().to_lowercase(), "aa:bb:cc:dd:ee:ff");
    assert_eq!(result.freq, 2412);
    assert_eq!(result.signal, -50);
    assert_eq!(result.ssid, "TestNetwork");
    assert_eq!(result.security, Security::Psk);
    assert_eq!(result.channel(), 1);
}

#[test]
fn test_parse_scan_result_5ghz() {
    let line = "11:22:33:44:55:66\t5180\t-65\t[WPA2-EAP-CCMP][ESS]\tEnterprise";
    let result = ScanResult::parse(line).unwrap();
    assert_eq!(result.freq, 5180);
    assert_eq!(result.security, Security::Eap);
    assert_eq!(result.channel(), 36);
}

#[test]
fn test_parse_scan_result_open() {
    let line = "aa:bb:cc:dd:ee:ff\t2437\t-70\t[ESS]\tOpenNetwork";
    let result = ScanResult::parse(line).unwrap();
    assert_eq!(result.security, Security::Open);
}

#[test]
fn scan_result_rejects_short_or_bad_lines() {
    assert!(ScanResult::parse("bssid / frequency / signal level / flags / ssid").is_none());
    assert!(ScanResult::parse("aa:bb:cc:dd:ee:ff\t2412\t-50\t[ESS]").is_none());
    assert!(ScanResult::parse("aa:bb:cc:dd:ee:ff\tfast\t-50\t[ESS]\tX").is_none());
    assert!(ScanResult::parse("aa:bb:cc:dd:ee\t2412\t-50\t[ESS]\tX").is_none());
}

#[test]
fn channels_of_all_bands() {
    assert_eq!(scan(2472, -50, "aa:bb:cc:dd:ee:ff", "x").channel(), 13);
    assert_eq!(scan(2484, -50, "aa:bb:cc:dd:ee:ff", "x").channel(), 14);
    assert_eq!(scan(5320, -50, "aa:bb:cc:dd:ee:ff", "x").channel(), 64);
    assert_eq!(scan(5500, -50, "aa:bb:cc:dd:ee:ff", "x").channel(), 100);
    assert_eq!(scan(5720, -50, "aa:bb:cc:dd:ee:ff", "x").channel(), 144);
    assert_eq!(scan(5745, -50, "aa:bb:cc:dd:ee:ff", "x").channel(), 149);
    assert_eq!(scan(5825, -50, "aa:bb:cc:dd:ee:ff", "x").channel(), 165);
    assert_eq!(scan(5510, -50, "aa:bb:cc:dd:ee:ff", "x").channel(), 0);
    assert_eq!(scan(2413, -50, "aa:bb:cc:dd:ee:ff", "x").channel(), 0);
}

#[test]
fn test_signal_quality() {
    let mut result = scan(2412, -30, "aa:bb:cc:dd:ee:ff", "Test");
    assert_eq!(result.signal_quality(), 100);
    result.signal = -90;
    assert_eq!(result.signal_quality(), 0);
    result.signal = -60;
    assert_eq!(result.signal_quality(), 50);
    result.signal = -100;
    assert_eq!(result.signal_quality(), 0);
    result.signal = -10;
    assert_eq!(result.signal_quality(), 100);
    result.signal = -89;
    assert_eq!(result.signal_quality(), 1);
}

#[test]
fn test_parse_known_network() {
    let network = KnownNetwork::parse("0\tMyNetwork\tany\t[CURRENT]").unwrap();
    assert_eq!(network.id, Some(0));
    assert_eq!(network.ssid, "MyNetwork");
    assert!(network.bssid.is_none());
    assert_eq!(network.state, KnownNetworkState::Current);
    assert!(network.is_current());
}

#[test]
fn test_parse_known_network_disabled() {
    let network = KnownNetwork::parse("1\tOtherNetwork\taa:bb:cc:dd:ee:ff\t[DISABLED]").unwrap();
    assert_eq!(network.id, Some(1));
    assert_eq!(network.state, KnownNetworkState::Disabled);
    assert!(!network.is_enabled());
    assert!(network.bssid.is_some());
}

#[test]
fn known_network_without_flags_and_header() {
    let network = KnownNetwork::parse("7\tNet\tany").unwrap();
    assert_eq!(network.state, KnownNetworkState::Disconnected);
    assert!(KnownNetwork::parse("network id / ssid / bssid / flags").is_none());
    assert!(KnownNetwork::parse("3\tNet").is_none());
    assert_eq!(KnownNetworkState::from_flags(""), KnownNetworkState::Enabled);
}

#[test]
fn test_sort_by_signal() {
    let mut results = vec![
        scan(2412, -70, "aa:bb:cc:dd:ee:ff", "Weak"),
        scan(2412, -50, "11:22:33:44:55:66", "Strong"),
    ];
    sort_by_signal(&mut results);
    assert_eq!(results[0].ssid, "Strong");
    assert_eq!(results[1].ssid, "Weak");
}

#[test]
fn sort_by_signal_is_stable() {
    let mut results = vec![
        scan(2412, -60, "aa:bb:cc:dd:ee:01", "A"),
        scan(2412, -40, "aa:bb:cc:dd:ee:02", "B"),
        scan(2412, -60, "aa:bb:cc:dd:ee:03", "C"),
        scan(2412, -80, "aa:bb:cc:dd:ee:04", "D"),
        scan(2412, -40, "aa:bb:cc:dd:ee:05", "E"),
    ];
    sort_by_signal(&mut results);
    let names: Vec<&str> = results.iter().map(|r| r.ssid.as_str()).collect();
    assert_eq!(names, vec!["B", "E", "A", "C", "D"]);
}

fn known(ssid: &str, priority: i32) -> KnownNetwork {
    KnownNetwork {
        id: None,
        priority,
        hidden: false,
        security: Security::Psk,
        state: KnownNetworkState::Enabled,
        ssid: ssid.to_string(),
        bssid: None,
        password: None,
        identity: None,
    }
}

#[test]
fn sort_by_priority_is_stable_and_descending() {
    let mut networks = vec![known("a", 1), known("b", 5), known("c", 1), known("d", 3)];
    sort_by_priority(&mut networks);
    let names: Vec<&str> = networks.iter().map(|n| n.ssid.as_str()).collect();
    assert_eq!(names, vec!["b", "d", "a", "c"]);
}

#[test]
fn test_filter_by_ssid() {
    let results = vec![
        scan(2412, -50, "aa:bb:cc:dd:ee:ff", "TestNetwork"),
        scan(2412, -60, "11:22:33:44:55:66", "OtherNet"),
    ];
    let filtered = filter_by_ssid(results, "test");
    assert_eq!(filtered.len(), 1);
    assert_eq!(filtered[0].ssid, "TestNetwork");
}

#[test]
fn filter_known_by_ssid_keeps_order() {
    let networks = vec![known("HomeA", 1), known("Office", 2), known("homeB", 3)];
    let filtered = filter_known_by_ssid(networks, "HOME");
    let names: Vec<&str> = filtered.iter().map(|n| n.ssid.as_str()).collect();
    assert_eq!(names, vec!["HomeA", "homeB"]);
}

#[test]
fn test_from_flags() {
    assert_eq!(Security::from_flags("[WPA2-PSK-CCMP][ESS]"), Security::Psk);
    assert_eq!(Security::from_flags("[WPA-PSK-TKIP][ESS]"), Security::Psk);
    assert_eq!(Security::from_flags("[WPA2-EAP-CCMP][ESS]"), Security::Eap);
    assert_eq!(Security::from_flags("[ESS]"), Security::Open);
    assert_eq!(Security::from_flags(""), Security::Open);
    assert_eq!(Security::from_flags("[WEP]"), Security::Psk);
}

#[test]
fn test_from_key_mgmt() {
    assert_eq!(Security::from_key_mgmt("WPA-PSK"), Security::Psk);
    assert_eq!(Security::from_key_mgmt("WPA2-PSK"), Security::Psk);
    assert_eq!(Security::from_key_mgmt("WPA-EAP"), Security::Eap);
    assert_eq!(Security::from_key_mgmt("IEEE8021X"), Security::Eap);
    assert_eq!(Security::from_key_mgmt("NONE"), Security::Open);
    assert_eq!(Security::from_key_mgmt("UNKNOWN"), Security::Unknown);
    assert_eq!(Security::from_key_mgmt("  WPA-EAP-SHA256\t"), Security::Eap);
}

#[test]
fn test_requirements() {
    assert!(Security::Psk.requires_password());
    assert!(!Security::Open.requires_password());
    assert!(!Security::Eap.requires_password());
    assert!(Security::Eap.requires_identity());
    assert!(!Security::Psk.requires_identity());
    assert!(!Security::Open.requires_identity());
}

#[test]
fn test_display() {
    assert_eq!(Security::Psk.to_string(), "PSK");
    assert_eq!(Security::Eap.to_string(), "EAP");
    assert_eq!(Security::Open.to_string(), "Open");
    assert_eq!(Security::Unknown.to_string(), "N/A");
}

#[test]
fn security_descriptions() {
    assert_eq!(Security::Open.description(), "No password required");
    assert_eq!(Security::Unknown.description(), "Unknown security");
}

#[test]
fn test_parse_connected_status() {
    let response = "bssid=aa:bb:cc:dd:ee:ff
freq=2412
ssid=TestNetwork
id=0
mode=station
pairwise_cipher=CCMP
group_cipher=CCMP
key_mgmt=WPA2-PSK
wpa_state=COMPLETED
ip_address=192.168.1.100";
    let status = SupplicantStatus::parse(response);
    assert!(status.is_connected());
    assert!(!status.is_disconnected());
    assert_eq!(status.bssid, Some("aa:bb:cc:dd:ee:ff".to_string()));
    assert_eq!(status.freq, Some(2412));
    assert_eq!(status.ssid, Some("TestNetwork".to_string()));
    assert_eq!(status.id, Some(0));
    assert_eq!(status.security, Some(Security::Psk));
    assert_eq!(status.ip_address, Some("192.168.1.100".to_string()));
    assert_eq!(status.state_description(), "Connected");
    assert_eq!(status.band(), Some("2.4 GHz"));
}

#[test]
fn test_parse_disconnected_status() {
    let status = SupplicantStatus::parse("wpa_state=DISCONNECTED");
    assert!(!status.is_connected());
    assert!(status.is_disconnected());
    assert_eq!(status.state_description(), "Disconnected");
}

#[test]
fn test_parse_scanning_status() {
    let status = SupplicantStatus::parse("wpa_state=SCANNING");
    assert!(status.is_scanning());
    assert_eq!(status.state_description(), "Scanning");
}

#[test]
fn test_parse_eap_status() {
    let response = "bssid=aa:bb:cc:dd:ee:ff
freq=5180
ssid=Enterprise
id=1
mode=station
key_mgmt=WPA-EAP
wpa_state=COMPLETED
identity=user@example.com";
    let status = SupplicantStatus::parse(response);
    assert!(status.is_connected());
    assert_eq!(status.security, Some(Security::Eap));
    assert_eq!(status.eap_identity, Some("user@example.com".to_string()));
    assert_eq!(status.band(), Some("5 GHz"));
}

#[test]
fn test_associating_states() {
    for state in ["ASSOCIATING", "ASSOCIATED", "4WAY_HANDSHAKE", "GROUP_HANDSHAKE"] {
        let response = format!("wpa_state={}", state);
        let status = SupplicantStatus::parse(&response);
        assert!(status.is_associating(), "state {} should be associating", state);
    }
}

#[test]
fn status_handles_crlf_eap_method_and_bad_numbers() {
    let status = SupplicantStatus::parse("eap_method=PEAP\r\nfreq=abc\r\nwpa_state=INACTIVE\r\n");
    assert_eq!(status.security, Some(Security::Eap));
    assert_eq!(status.freq, None);
    assert!(status.is_disconnected());
    assert_eq!(status.state_description(), "Inactive");
    assert_eq!(status.band(), None);
    // key_mgmt set before eap_method is kept.
    let status = SupplicantStatus::parse("key_mgmt=NONE\neap_method=PEAP\nnoequals\nssid=My\\x20Net");
    assert_eq!(status.security, Some(Security::Open));
    assert_eq!(status.ssid, Some("My Net".to_string()));
}
