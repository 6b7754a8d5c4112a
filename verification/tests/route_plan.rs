use libnetwork_daemon::backup::BackupRouteTable;
use libnetwork_daemon::daemon::InterfaceEventKind;
use libnetwork_daemon::interface::{InterfaceInfo, InterfaceType};
use libnetwork_daemon::ip::{IpAddr, Ipv4Addr, PrefixedIpAddr, PrefixedIpv4Addr, PrefixedIpv6Addr};
use libnetwork_daemon::route_plan::{
    apply_route_change, dead_routes, default_routes_needed, track_interface, RouteChangeKind,
};
use libnetwork_daemon::route_table::{Route, RouteTable};
use libnetwork_daemon::state::ConnectionState;

fn eth(id: u32, addr: [u8; 4], gw: Option<[u8; 4]>, state: ConnectionState) -> InterfaceInfo {
    let mut info = InterfaceInfo::new(id, &format!("eth{id}"));
    info.interface_type = InterfaceType::Ethernet;
    info.state = state;
    info.ipv4_addrs = vec![PrefixedIpv4Addr::new(Ipv4Addr::new(addr[0], addr[1], addr[2], addr[3]), 24)];
    info.gateway_ipv4 = gw.map(|g| PrefixedIpv4Addr::new(Ipv4Addr::new(g[0], g[1], g[2], g[3]), 32));
    info
}

fn route(a: [u8; 4], prefix: u8, oif: u32, id: u64) -> Route {
    Route {
        destination: IpAddr::V4(Ipv4Addr::new(a[0], a[1], a[2], a[3])),
        prefix,
        gateway: None,
        if_index: Some(oif),
        metric: None,
        id,
    }
}

#[test]
fn backups_follow_interfaces() {
    let mut v4: BackupRouteTable<PrefixedIpv4Addr> = BackupRouteTable::new();
    let mut v6: BackupRouteTable<PrefixedIpv6Addr> = BackupRouteTable::new();
    let a = eth(1, [10, 0, 0, 5], Some([10, 0, 0, 1]), ConnectionState::Connected);
    let b = eth(2, [10, 0, 0, 6], Some([10, 0, 0, 254]), ConnectionState::Connected);
    assert!(!track_interface(&mut v4, &mut v6, InterfaceEventKind::Added, &a));
    assert!(!track_interface(&mut v4, &mut v6, InterfaceEventKind::Added, &b));
    assert_eq!(v4.available_gateways().len(), 2);
    let net = PrefixedIpv4Addr::new(Ipv4Addr::new(10, 0, 0, 0), 24);
    let mut outs = v4.net_outputs(&net).unwrap();
    outs.sort();
    assert_eq!(outs, [1, 2]);

    let down = eth(2, [10, 0, 0, 6], Some([10, 0, 0, 254]), ConnectionState::Disconnected);
    assert!(track_interface(&mut v4, &mut v6, InterfaceEventKind::Changed, &down));
    assert_eq!(v4.available_gateways(), [(PrefixedIpv4Addr::new(Ipv4Addr::new(10, 0, 0, 1), 32), 1)]);

    let no_gw = eth(1, [10, 0, 0, 5], None, ConnectionState::Connected);
    assert!(!track_interface(&mut v4, &mut v6, InterfaceEventKind::Changed, &no_gw));
    assert!(v4.available_gateways().is_empty());
    assert!(track_interface(&mut v4, &mut v6, InterfaceEventKind::Removed, &a));
}

#[test]
fn default_routes_come_from_backups() {
    let mut v4: BackupRouteTable<PrefixedIpv4Addr> = BackupRouteTable::new();
    let mut v6: BackupRouteTable<PrefixedIpv6Addr> = BackupRouteTable::new();
    let mut table = RouteTable::new();
    assert_eq!(default_routes_needed(&table, &v4, &v6), (None, None));
    let a = eth(1, [10, 0, 0, 5], Some([10, 0, 0, 1]), ConnectionState::Connected);
    track_interface(&mut v4, &mut v6, InterfaceEventKind::Added, &a);
    assert_eq!(
        default_routes_needed(&table, &v4, &v6),
        (Some((PrefixedIpv4Addr::new(Ipv4Addr::new(10, 0, 0, 1), 32), 1)), None)
    );
    apply_route_change(&mut table, RouteChangeKind::Add, route([0, 0, 0, 0], 0, 1, 9));
    assert_eq!(default_routes_needed(&table, &v4, &v6), (None, None));
    apply_route_change(&mut table, RouteChangeKind::Delete, route([0, 0, 0, 0], 0, 1, 9));
    assert!(table.find_default(false).is_none());
}

#[test]
fn dead_routes_find_other_interfaces() {
    let mut v4: BackupRouteTable<PrefixedIpv4Addr> = BackupRouteTable::new();
    let mut v6: BackupRouteTable<PrefixedIpv6Addr> = BackupRouteTable::new();
    track_interface(&mut v4, &mut v6, InterfaceEventKind::Added, &eth(1, [10, 0, 0, 5], Some([10, 0, 0, 1]), ConnectionState::Connected));
    track_interface(&mut v4, &mut v6, InterfaceEventKind::Added, &eth(2, [10, 0, 0, 6], Some([10, 0, 0, 1]), ConnectionState::Connected));
    let mut table = RouteTable::new();
    apply_route_change(&mut table, RouteChangeKind::Add, route([10, 0, 0, 0], 24, 1, 1));
    apply_route_change(&mut table, RouteChangeKind::Add, route([172, 16, 0, 0], 16, 1, 2));
    let dead = dead_routes(&table, &v4, &v6, 1);
    assert_eq!(dead.len(), 2);
    assert_eq!(dead[0].route.id, 1);
    assert_eq!(dead[0].replacement, Some(2));
    assert_eq!(dead[1].route.id, 2);
    assert_eq!(dead[1].replacement, None);
    assert!(dead_routes(&table, &v4, &v6, 7).is_empty());
    apply_route_change(&mut table, RouteChangeKind::Change, route([10, 0, 0, 0], 24, 2, 3));
    let ids: Vec<u64> = table
        .find(&PrefixedIpAddr::V4(PrefixedIpv4Addr::new(Ipv4Addr::new(10, 0, 0, 0), 24)))
        .unwrap()
        .iter()
        .map(|r| r.id)
        .collect();
    assert_eq!(ids, [3]);
}
