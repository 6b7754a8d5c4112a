use libnetwork_daemon::dhcp::{Lease, LeaseBuilder};
use libnetwork_daemon::dhcp_reply::{
    classify_reply, lease_from_ack, renew_lease, AckOption, Awaiting, DhcpClientError, MessageType,
    ReplyDecision,
};
use libnetwork_daemon::interface::{
    InterfaceInfo, InterfaceType, LaggProtocol, LinkOptions, Modification, WlanLinkOptions,
};
use libnetwork_daemon::ip::{Ipv4Addr, PrefixedIpAddr, PrefixedIpv4Addr};
use libnetwork_daemon::manager::{
    address_ops, mask_prefix_len, merge_changed_info, plan_dhcp_update, plan_link_creation,
    wlan_on_first_device, AddressOp, InterfaceError, LinkPlan,
};
use libnetwork_daemon::state::ConnectionState;

fn other(r: Result<LinkPlan, InterfaceError>) -> String {
    match r {
        Err(InterfaceError::Other(m)) => m,
        other => panic!("unexpected: {:?}", other),
    }
}

#[test]
fn link_requests_are_resolved_per_type() {
    assert_eq!(
        other(plan_link_creation("br0", true, InterfaceType::Bridge, None)),
        "interface already exists: br0"
    );
    assert!(matches!(
        plan_link_creation("br0", false, InterfaceType::Bridge, None),
        Ok(LinkPlan::Create(LinkOptions::Bridge { members })) if members.is_empty()
    ));
    assert!(matches!(
        plan_link_creation("lagg0", false, InterfaceType::Lagg, None),
        Ok(LinkPlan::Create(LinkOptions::Lagg { protocol: LaggProtocol::Failover, members })) if members.is_empty()
    ));
    assert!(matches!(
        plan_link_creation("wlan0", false, InterfaceType::Wlan, None),
        Ok(LinkPlan::NeedWirelessParent)
    ));
    assert_eq!(
        other(plan_link_creation("vlan0", false, InterfaceType::Vlan, None)),
        "VLAN creation requires a parent and tag"
    );
    assert_eq!(
        other(plan_link_creation(
            "vlan0",
            false,
            InterfaceType::Vlan,
            Some(LinkOptions::Bridge { members: vec![] })
        )),
        "VLAN creation requires VLAN link options"
    );
    assert!(matches!(
        plan_link_creation(
            "vlan0",
            false,
            InterfaceType::Vlan,
            Some(LinkOptions::Vlan { parent: "em0".to_string(), tag: 7 })
        ),
        Ok(LinkPlan::Create(LinkOptions::Vlan { tag: 7, .. }))
    ));
    assert_eq!(
        other(plan_link_creation("lo1", false, InterfaceType::Loopback, None)),
        "Loopback interfaces are provided by the kernel and can only be configured"
    );
    assert_eq!(
        other(plan_link_creation(
            "wlan0",
            false,
            InterfaceType::Wlan,
            Some(LinkOptions::Vlan { parent: "em0".to_string(), tag: 7 })
        )),
        "WLAN creation requires WLAN link options"
    );
}

#[test]
fn wlan_goes_on_the_first_wireless_device() {
    assert!(matches!(
        wlan_on_first_device(vec![]),
        Err(InterfaceError::Other(m)) if m == "no wireless device is available"
    ));
    match wlan_on_first_device(vec!["iwn0".to_string(), "ath0".to_string()]) {
        Ok(LinkOptions::Wlan { parent, options }) => {
            assert_eq!(parent, "iwn0");
            assert_eq!(options, WlanLinkOptions::default());
        }
        other => panic!("unexpected: {:?}", other),
    }
}

fn v4(a: u8, b: u8, c: u8, d: u8, p: u8) -> PrefixedIpAddr {
    PrefixedIpAddr::V4(PrefixedIpv4Addr::new(Ipv4Addr::new(a, b, c, d), p))
}

#[test]
fn address_modifications_become_ordered_changes() {
    let current = vec![v4(10, 0, 0, 1, 24), v4(10, 0, 1, 1, 24)];
    let new = v4(192, 168, 0, 2, 24);
    assert_eq!(address_ops(Modification::NoChange, &current), vec![]);
    assert_eq!(address_ops(Modification::Append(new), &current), vec![AddressOp::Add(new)]);
    assert_eq!(address_ops(Modification::Remove(new), &current), vec![AddressOp::Delete(new)]);
    assert_eq!(
        address_ops(Modification::Clear, &current),
        vec![AddressOp::Delete(current[0]), AddressOp::Delete(current[1])]
    );
    assert_eq!(
        address_ops(Modification::Replace(new), &current),
        vec![AddressOp::Delete(current[0]), AddressOp::Delete(current[1]), AddressOp::Add(new)]
    );
}

#[test]
fn netmask_prefix_lengths() {
    assert_eq!(mask_prefix_len(0xffff_ff00), 24);
    assert_eq!(mask_prefix_len(0xffff_ffff), 32);
    assert_eq!(mask_prefix_len(0), 0);
    assert_eq!(mask_prefix_len(0xff00_ff00), 8);
}

fn lease(ip: u8, router: Option<u8>) -> Lease {
    let mut b = LeaseBuilder::new()
        .set_assigned_ip(Ipv4Addr::new(10, 0, 0, ip))
        .set_server_id(Ipv4Addr::new(10, 0, 0, 1))
        .set_subnet_mask(Ipv4Addr::new(255, 255, 255, 0))
        .set_lease_time(600);
    if let Some(r) = router {
        b = b.set_router(Ipv4Addr::new(10, 0, 0, r));
    }
    b.build().unwrap()
}

#[test]
fn dhcp_lease_changes() {
    let first = plan_dhcp_update(&None, &Some(lease(5, Some(1))));
    assert!(first.gateway_changed);
    assert_eq!(first.remove, None);
    assert_eq!(first.add, Some(PrefixedIpv4Addr::new(Ipv4Addr::new(10, 0, 0, 5), 24)));
    assert_eq!(first.new_gateway, Some(PrefixedIpv4Addr::new(Ipv4Addr::new(10, 0, 0, 1), 32)));
    assert!(!first.announce);
    let same = plan_dhcp_update(&Some(lease(5, Some(1))), &Some(lease(5, Some(1))));
    assert!(!same.gateway_changed && !same.announce && same.add.is_none());
    let gw = plan_dhcp_update(&Some(lease(5, Some(1))), &Some(lease(5, Some(254))));
    assert!(gw.gateway_changed && gw.announce && gw.add.is_none() && gw.remove.is_none());
    let gone = plan_dhcp_update(&Some(lease(5, None)), &None);
    assert!(!gone.gateway_changed);
    assert_eq!(gone.remove, Some(PrefixedIpv4Addr::new(Ipv4Addr::new(10, 0, 0, 5), 24)));
    assert_eq!(gone.add, None);
}

#[test]
fn kernel_reports_keep_managed_state() {
    let mut current = InterfaceInfo::new(3, "wlan0");
    current.interface_type = InterfaceType::Wlan;
    current.state = ConnectionState::Connected;
    current.dhcpv4_enabled = false;
    current.gateway_ipv4 = Some(PrefixedIpv4Addr::new(Ipv4Addr::new(10, 0, 0, 1), 32));
    let mut report = InterfaceInfo::new(3, "wlan0");
    report.interface_type = InterfaceType::Wlan;
    report.state = ConnectionState::Disconnected;
    let merged = merge_changed_info(Some(&current), report.clone());
    assert_eq!(merged.state, ConnectionState::Connected);
    assert!(!merged.dhcpv4_enabled);
    assert_eq!(merged.gateway_ipv4, current.gateway_ipv4);
    let fresh = merge_changed_info(None, report);
    assert_eq!(fresh.state, ConnectionState::Disconnected);
    current.state = ConnectionState::Unmanaged;
    let mut eth = InterfaceInfo::new(3, "wlan0");
    eth.state = ConnectionState::Up;
    assert_eq!(merge_changed_info(Some(&current), eth).state, ConnectionState::Unmanaged);
}

#[test]
fn replies_are_matched_to_the_transaction() {
    assert_eq!(classify_reply(Awaiting::Offer, 7, 7, Some(MessageType::Offer)), ReplyDecision::Accept);
    assert_eq!(classify_reply(Awaiting::Offer, 7, 8, Some(MessageType::Offer)), ReplyDecision::Ignore);
    assert_eq!(classify_reply(Awaiting::Offer, 7, 7, Some(MessageType::Ack)), ReplyDecision::Ignore);
    assert_eq!(classify_reply(Awaiting::Ack, 7, 7, Some(MessageType::Ack)), ReplyDecision::Accept);
    assert_eq!(classify_reply(Awaiting::Ack, 7, 7, Some(MessageType::Nak)), ReplyDecision::Reject);
    assert_eq!(classify_reply(Awaiting::Ack, 7, 7, None), ReplyDecision::Ignore);
}

#[test]
fn acknowledgement_options_make_the_lease() {
    let ip = Ipv4Addr::new(10, 1, 0, 9);
    let server = Ipv4Addr::new(10, 1, 0, 1);
    let options = vec![
        AckOption::SubnetMask(Ipv4Addr::new(255, 255, 0, 0)),
        AckOption::Router(vec![Ipv4Addr::new(10, 1, 0, 1), Ipv4Addr::new(10, 1, 0, 2)]),
        AckOption::DomainNameServer(vec![Ipv4Addr::new(1, 1, 1, 1)]),
        AckOption::DomainNameServer(vec![Ipv4Addr::new(9, 9, 9, 9)]),
        AckOption::AddressLeaseTime(7200),
        AckOption::Other,
        AckOption::Rebinding(5000),
    ];
    let lease = lease_from_ack(ip, server, &options).unwrap();
    assert_eq!(lease.assigned_ip, ip);
    assert_eq!(lease.router, Some(Ipv4Addr::new(10, 1, 0, 1)));
    assert_eq!(lease.dns_servers, vec![Ipv4Addr::new(1, 1, 1, 1), Ipv4Addr::new(9, 9, 9, 9)]);
    assert_eq!(lease.renewal_time, 3600);
    assert_eq!(lease.rebinding_time, 5000);
    assert!(matches!(
        lease_from_ack(ip, server, &vec![AckOption::AddressLeaseTime(10)]),
        Err(DhcpClientError::InvalidResponse)
    ));

    let mut renewed = lease.clone();
    renew_lease(
        &mut renewed,
        &vec![
            AckOption::DomainNameServer(vec![Ipv4Addr::new(8, 8, 8, 8)]),
            AckOption::Renewal(100),
        ],
    );
    assert_eq!(renewed.dns_servers, vec![Ipv4Addr::new(8, 8, 8, 8)]);
    assert_eq!(renewed.renewal_time, 100);
    assert_eq!(renewed.rebinding_time, 5000);
    assert_eq!(renewed.assigned_ip, ip);
}

use libnetwork_daemon::daemon::{connection_state_for, terminate_line};
use libnetwork_daemon::events::WpaEvent;
use libnetwork_daemon::network::{KnownNetwork, KnownNetworkState};
use libnetwork_daemon::security::Security;
use libnetwork_daemon::status::WpaState;
use libnetwork_daemon::wifi::{event_reaction, redact_passwords, EventReaction};

#[test]
fn supplicant_states_map_to_interface_states() {
    assert_eq!(connection_state_for(None), None);
    assert_eq!(connection_state_for(Some(WpaState::Completed)), Some(ConnectionState::Connected));
    assert_eq!(connection_state_for(Some(WpaState::Scanning)), Some(ConnectionState::NoCarrier));
    assert_eq!(connection_state_for(Some(WpaState::Inactive)), Some(ConnectionState::NoCarrier));
    assert_eq!(connection_state_for(Some(WpaState::Disconnected)), Some(ConnectionState::NoCarrier));
    assert_eq!(connection_state_for(Some(WpaState::InterfaceDisabled)), Some(ConnectionState::Disabled));
    assert_eq!(connection_state_for(Some(WpaState::Unknown)), Some(ConnectionState::NotApplicable));
    assert_eq!(connection_state_for(Some(WpaState::FourWayHandshake)), Some(ConnectionState::Up));
}

#[test]
fn reply_lines_end_with_one_newline() {
    assert_eq!(terminate_line("{}".to_string()), "{}\n");
    assert_eq!(terminate_line("{}\n".to_string()), "{}\n");
    assert_eq!(terminate_line(String::new()), "\n");
}

#[test]
fn events_trigger_refreshes() {
    assert_eq!(event_reaction(&WpaEvent::ScanResults), EventReaction::RefreshScanResults);
    assert_eq!(
        event_reaction(&WpaEvent::Connected { bssid: "aa".to_string() }),
        EventReaction::RefreshStatus
    );
    assert_eq!(
        event_reaction(&WpaEvent::Disconnected { bssid: None, reason: Some(3) }),
        EventReaction::RefreshStatus
    );
    assert_eq!(event_reaction(&WpaEvent::ScanStarted), EventReaction::Ignore);
    assert_eq!(event_reaction(&WpaEvent::CommandOk), EventReaction::Ignore);
}

#[test]
fn known_networks_are_answered_without_passwords() {
    let n = KnownNetwork {
        id: Some(2),
        priority: 5,
        hidden: false,
        security: Security::Psk,
        state: KnownNetworkState::Current,
        ssid: "Home".to_string(),
        bssid: None,
        password: Some("secret123".to_string()),
        identity: Some("me".to_string()),
    };
    let out = redact_passwords(vec![n.clone(), n]);
    assert_eq!(out.len(), 2);
    assert!(out.iter().all(|k| k.password.is_none()));
    assert_eq!(out[1].identity.as_deref(), Some("me"));
    assert_eq!(out[0].ssid, "Home");
}

use libnetwork_daemon::daemon::{plan_supervisors, InterfaceEventKind, SupervisorPlan};
use libnetwork_daemon::mac::MacAddr;

#[test]
fn interface_events_start_and_stop_managers() {
    let mut wlan = InterfaceInfo::new(2, "wlan0");
    wlan.interface_type = InterfaceType::Wlan;
    wlan.state = ConnectionState::Up;
    wlan.mac_addr = MacAddr::parse("00:11:22:33:44:55");
    assert_eq!(
        plan_supervisors(InterfaceEventKind::Added, &wlan, false),
        SupervisorPlan { start_wifi: true, stop_wifi: false, start_dhcp: true, stop_dhcp: false }
    );
    assert_eq!(
        plan_supervisors(InterfaceEventKind::Added, &wlan, true),
        SupervisorPlan { start_wifi: true, stop_wifi: false, start_dhcp: false, stop_dhcp: false }
    );
    assert_eq!(
        plan_supervisors(InterfaceEventKind::Removed, &wlan, true),
        SupervisorPlan { start_wifi: false, stop_wifi: true, start_dhcp: false, stop_dhcp: false }
    );
    let mut eth = InterfaceInfo::new(1, "em0");
    eth.state = ConnectionState::Connected;
    eth.mac_addr = MacAddr::parse("00:11:22:33:44:66");
    assert!(!plan_supervisors(InterfaceEventKind::Added, &eth, false).start_dhcp);
    assert!(plan_supervisors(InterfaceEventKind::Changed, &eth, false).start_dhcp);
    eth.state = ConnectionState::NoCarrier;
    assert!(plan_supervisors(InterfaceEventKind::Changed, &eth, true).stop_dhcp);
    eth.state = ConnectionState::Up;
    eth.dhcpv4_enabled = false;
    assert!(plan_supervisors(InterfaceEventKind::Changed, &eth, true).stop_dhcp);
    assert_eq!(
        plan_supervisors(InterfaceEventKind::Changed, &eth, false),
        SupervisorPlan { start_wifi: false, stop_wifi: false, start_dhcp: false, stop_dhcp: false }
    );
}
