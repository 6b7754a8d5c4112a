use libnetwork_daemon::editor::{ConnectionEditor, EditorField, IpMode, RoutingFamily, RoutingPopup};
use libnetwork_daemon::editor_values::check_route;
use libnetwork_daemon::interface::{InterfaceInfo, InterfaceType, Modification};
use libnetwork_daemon::ip::{Ipv4Addr, Ipv6Addr, PrefixedIpv4Addr, PrefixedIpv6Addr};
use libnetwork_daemon::ip_text::PrefixedAddrError;
use libnetwork_daemon::state::ConnectionState;

fn ethernet(name: &str, state: ConnectionState) -> InterfaceInfo {
    let mut info = InterfaceInfo::new(1, name);
    info.interface_type = InterfaceType::Ethernet;
    info.state = state;
    info
}

fn v6(text: &str) -> Ipv6Addr {
    PrefixedIpv6Addr::parse(&format!("{text}/0")).unwrap().addr
}

#[test]
fn v4_text_round_trip() {
    let a = PrefixedIpv4Addr::new(Ipv4Addr::new(192, 168, 1, 5), 24);
    assert_eq!(a.to_string(), "192.168.1.5/24");
    assert_eq!(PrefixedIpv4Addr::parse(&a.to_string()), Ok(a));
}

#[test]
fn v6_text_round_trip() {
    let a = PrefixedIpv6Addr::new(Ipv6Addr::new(0x2001, 0xdb8, 0, 1, 0, 0, 0, 1), 64);
    assert_eq!(a.to_string(), "2001:db8:0:1::1/64");
    assert_eq!(PrefixedIpv6Addr::parse(&a.to_string()), Ok(a));
}

#[test]
fn v4_parse_refusals() {
    assert_eq!(PrefixedIpv4Addr::parse("10.0.0.1"), Err(PrefixedAddrError::Format));
    assert_eq!(PrefixedIpv4Addr::parse("10.0.0.1/8/9"), Err(PrefixedAddrError::Format));
    assert_eq!(PrefixedIpv4Addr::parse("10.0.0/8"), Err(PrefixedAddrError::Address));
    assert_eq!(PrefixedIpv4Addr::parse("10.0.0.256/8"), Err(PrefixedAddrError::Address));
    assert_eq!(PrefixedIpv4Addr::parse("10.0.0.01/8"), Err(PrefixedAddrError::Address));
    assert_eq!(PrefixedIpv4Addr::parse("10.0.0.1/"), Err(PrefixedAddrError::PrefixLength));
    assert_eq!(PrefixedIpv4Addr::parse("10.0.0.1/256"), Err(PrefixedAddrError::PrefixLength));
    assert_eq!(
        PrefixedIpv4Addr::parse("10.0.0.0/+8"),
        Ok(PrefixedIpv4Addr::new(Ipv4Addr::new(10, 0, 0, 0), 8))
    );
    assert_eq!(
        PrefixedIpv4Addr::parse("10.0.0.0/40"),
        Ok(PrefixedIpv4Addr::new(Ipv4Addr::new(10, 0, 0, 0), 40))
    );
    assert_eq!(PrefixedAddrError::Format.v4_message(), "Invalid IPv4 address format");
    assert_eq!(PrefixedAddrError::Address.v6_message(), "Invalid IPv6 address");
    assert_eq!(PrefixedAddrError::PrefixLength.v4_message(), "Invalid prefix length");
}

#[test]
fn v6_parse_forms() {
    assert_eq!(v6("::"), Ipv6Addr::new(0, 0, 0, 0, 0, 0, 0, 0));
    assert_eq!(v6("::1"), Ipv6Addr::new(0, 0, 0, 0, 0, 0, 0, 1));
    assert_eq!(v6("1::"), Ipv6Addr::new(1, 0, 0, 0, 0, 0, 0, 0));
    assert_eq!(v6("1:2:3:4:5:6:7::"), Ipv6Addr::new(1, 2, 3, 4, 5, 6, 7, 0));
    assert_eq!(v6("::2:3:4:5:6:7:8"), Ipv6Addr::new(0, 2, 3, 4, 5, 6, 7, 8));
    assert_eq!(v6("FE80::aBcD"), Ipv6Addr::new(0xfe80, 0, 0, 0, 0, 0, 0, 0xabcd));
    assert_eq!(v6("::ffff:192.0.2.1"), Ipv6Addr::new(0, 0, 0, 0, 0, 0xffff, 0xc000, 0x0201));
    assert_eq!(v6("1:2:3:4:5:6:1.2.3.4"), Ipv6Addr::new(1, 2, 3, 4, 5, 6, 0x0102, 0x0304));
    for bad in [
        "", ":", ":::", "1:::2", "1::2::3", "12345::", "1:2:3:4:5:6:7", "1:2:3:4:5:6:7:8:9",
        "1::2:3:4:5:6:7:8", "1.2.3.4::", "::1.2.3", "g::", "1:2:3:4:5:6:7:8::",
    ] {
        assert_eq!(
            PrefixedIpv6Addr::parse(&format!("{bad}/0")),
            Err(PrefixedAddrError::Address),
            "{bad}"
        );
    }
}

#[test]
fn v6_text_compresses_longest_zero_run() {
    assert_eq!(Ipv6Addr::new(0, 0, 0, 0, 0, 0, 0, 0).to_string(), "::");
    assert_eq!(Ipv6Addr::new(0, 0, 0, 0, 0, 0, 0, 1).to_string(), "::1");
    assert_eq!(Ipv6Addr::new(1, 0, 0, 0, 0, 0, 0, 0).to_string(), "1::");
    assert_eq!(Ipv6Addr::new(1, 0, 2, 0, 0, 3, 0, 4).to_string(), "1:0:2::3:0:4");
    assert_eq!(Ipv6Addr::new(1, 0, 0, 2, 0, 0, 3, 4).to_string(), "1::2:0:0:3:4");
    assert_eq!(Ipv6Addr::new(1, 0, 2, 3, 4, 5, 6, 7).to_string(), "1:0:2:3:4:5:6:7");
    assert_eq!(Ipv6Addr::new(0xfe80, 0, 0, 0, 0xabcd, 0, 0, 1).to_string(), "fe80::abcd:0:0:1");
    assert_eq!(
        Ipv6Addr::new(0, 0, 0, 0, 0, 0xffff, 0xc000, 0x0201).to_string(),
        "::ffff:192.0.2.1"
    );
    assert_eq!(Ipv4Addr::new(10, 0, 0, 254).to_string(), "10.0.0.254");
}

#[test]
fn editor_from_interface_fills_addresses() {
    let mut info = ethernet("eth0", ConnectionState::Connected);
    info.dhcpv4_enabled = false;
    info.ipv4_addrs = vec![PrefixedIpv4Addr::new(Ipv4Addr::new(192, 168, 1, 5), 24)];
    info.gateway_ipv4 = Some(PrefixedIpv4Addr::new(Ipv4Addr::new(192, 168, 1, 1), 0));
    info.ipv6_addrs = vec![PrefixedIpv6Addr::new(v6("2001:db8::5"), 64)];
    info.gateway_ipv6 = Some(PrefixedIpv6Addr::new(v6("fe80::1"), 0));
    let editor = ConnectionEditor::from_interface(&info);
    assert_eq!(editor.profile_name, "eth0");
    assert_eq!(editor.device, "eth0");
    assert_eq!(editor.ipv4_mode, IpMode::Manual);
    assert_eq!(editor.ipv4_address, "192.168.1.5/24");
    assert_eq!(editor.ipv4_gateway, "192.168.1.1");
    assert_eq!(editor.ipv6_mode, IpMode::Manual);
    assert_eq!(editor.ipv6_address, "2001:db8::5/64");
    assert_eq!(editor.ipv6_gateway, "fe80::1");

    let plain = ConnectionEditor::from_interface(&ethernet("eth1", ConnectionState::Disconnected));
    assert_eq!(plain.ipv4_mode, IpMode::Automatic);
    assert_eq!(plain.ipv6_mode, IpMode::Ignore);
    assert_eq!(plain.ipv4_address, "");
}

#[test]
fn editor_address_values() {
    let mut editor = ConnectionEditor::from_interface(&ethernet("eth0", ConnectionState::Up));
    assert_eq!(editor.ipv4_value(), Ok(Modification::Clear));
    assert_eq!(editor.ipv6_value(), Ok(Modification::Clear));
    editor.ipv4_mode = IpMode::Manual;
    editor.ipv4_address = " 10.0.0.2/24 ".to_string();
    assert_eq!(
        editor.ipv4_value(),
        Ok(Modification::Replace(PrefixedIpv4Addr::new(Ipv4Addr::new(10, 0, 0, 2), 24)))
    );
    editor.ipv4_address = "10.0.0.2/33".to_string();
    assert_eq!(editor.ipv4_value(), Err("IPv4 prefix must be between 0 and 32".to_string()));
    editor.ipv4_address = " nonsense ".to_string();
    assert_eq!(editor.ipv4_value(), Err("invalid IPv4 address: nonsense".to_string()));
    editor.ipv6_mode = IpMode::Automatic;
    assert_eq!(editor.ipv6_value(), Ok(Modification::NoChange));
    editor.ipv6_mode = IpMode::Manual;
    editor.ipv6_address = "2001:db8::1/129".to_string();
    assert_eq!(editor.ipv6_value(), Err("IPv6 prefix must be between 0 and 128".to_string()));
    editor.ipv6_address = "2001:db8::1/64".to_string();
    assert_eq!(
        editor.ipv6_value(),
        Ok(Modification::Replace(PrefixedIpv6Addr::new(v6("2001:db8::1"), 64)))
    );

    assert_eq!(
        editor.interface_action("eth0".to_string()).unwrap_err(),
        "invalid IPv4 address: nonsense"
    );
    editor.ipv4_address = "10.0.0.2/24".to_string();
    let change = editor.interface_action("eth0".to_string()).unwrap();
    assert_eq!(change.name, "eth0");
    assert_eq!(change.oper_state, Modification::NoChange);
    assert_eq!(change.dhcpv4, Modification::Replace(false));
    assert_eq!(change.slaac, Modification::Replace(editor.slaac));
}

#[test]
fn routing_popup_validates_and_applies_routes() {
    let mut editor = ConnectionEditor::from_interface(&ethernet(
        "eth0",
        ConnectionState::Disconnected,
    ));
    editor.open_routing(EditorField::Ipv4Routing);
    let popup = editor.routing.as_mut().unwrap();
    popup.begin_add();
    popup.input = "10.0.0.0/24 192.168.1.1".to_string();
    popup.add_route().unwrap();
    assert_eq!(popup.routes, ["10.0.0.0/24 192.168.1.1"]);
    assert_eq!(popup.selected, 0);

    let popup = editor.routing.take().unwrap();
    editor.apply_routing(popup);
    assert_eq!(editor.ipv4_routes, ["10.0.0.0/24 192.168.1.1"]);
    assert!(editor.routing.is_none());
}

#[test]
fn route_entries_refused() {
    let v4 = RoutingFamily::Ipv4;
    let v6f = RoutingFamily::Ipv6;
    assert_eq!(check_route(v4, "   "), Err("Route must not be empty".to_string()));
    assert_eq!(
        check_route(v4, "10.0.0.0/8 10.0.0.1 extra"),
        Err("Route accepts one destination and one gateway".to_string())
    );
    assert_eq!(check_route(v4, "10.0.0.0"), Err("Invalid IPv4 destination/prefix".to_string()));
    assert_eq!(
        check_route(v4, "10.0.0.0/33"),
        Err("IPv4 prefix must be between 0 and 32".to_string())
    );
    assert_eq!(check_route(v4, "10.0.0.0/8 10.0.0"), Err("Invalid IPv4 gateway".to_string()));
    assert_eq!(check_route(v4, "  10.0.0.0/8  "), Ok(()));
    assert_eq!(check_route(v6f, "2001:db8::/32 fe80::1"), Ok(()));
    assert_eq!(check_route(v6f, "2001:db8::"), Err("Invalid IPv6 destination/prefix".to_string()));
    assert_eq!(
        check_route(v6f, "::/129"),
        Err("IPv6 prefix must be between 0 and 128".to_string())
    );
    assert_eq!(check_route(v6f, "::/0 fe80:::1"), Err("Invalid IPv6 gateway".to_string()));

    let mut popup = RoutingPopup::new(RoutingFamily::Ipv6, vec!["::/0 fe80::1".to_string()]);
    popup.begin_add();
    popup.input = "2001:db8::/32".to_string();
    assert!(popup.add_route().is_ok());
    assert_eq!(popup.routes, ["::/0 fe80::1", "2001:db8::/32"]);
    assert_eq!(popup.selected, 1);
    assert!(!popup.editing);
    popup.input = "bogus".to_string();
    assert_eq!(popup.add_route(), Err("Invalid IPv6 destination/prefix".to_string()));
    assert_eq!(popup.routes.len(), 2);
    assert_eq!(popup.input, "bogus");
}
