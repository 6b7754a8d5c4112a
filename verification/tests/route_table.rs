use libnetwork_daemon::ip::{IpAddr, Ipv4Addr, Ipv6Addr, PrefixedIpAddr, PrefixedIpv4Addr, PrefixedIpv6Addr};
use libnetwork_daemon::route_table::{Route, RouteTable};

fn v4_route(a: [u8; 4], prefix: u8, oif: u32, metric: Option<u32>, id: u64) -> Route {
    Route {
        destination: IpAddr::V4(Ipv4Addr::new(a[0], a[1], a[2], a[3])),
        prefix,
        gateway: None,
        if_index: Some(oif),
        metric,
        id,
    }
}

fn v4_net(a: [u8; 4], prefix: u8) -> PrefixedIpAddr {
    PrefixedIpAddr::V4(PrefixedIpv4Addr::new(Ipv4Addr::new(a[0], a[1], a[2], a[3]), prefix))
}

#[test]
fn a_network_keeps_its_first_route() {
    let mut t = RouteTable::new();
    t.insert(v4_route([10, 0, 0, 0], 8, 1, Some(100), 1));
    t.insert(v4_route([10, 0, 0, 0], 8, 2, Some(300), 2));
    t.insert(v4_route([10, 0, 0, 0], 8, 3, None, 3));
    let ids: Vec<u64> = t.find(&v4_net([10, 0, 0, 0], 8)).unwrap().iter().map(|r| r.id).collect();
    assert_eq!(ids, [1]);
    assert!(t.find(&v4_net([10, 0, 0, 0], 16)).is_none());

    assert_eq!(t.remove(&v4_net([10, 0, 0, 0], 8)).map(|r| r.id), Some(1));
    assert!(t.remove(&v4_net([10, 0, 0, 0], 8)).is_none());
    assert!(t.find(&v4_net([10, 0, 0, 0], 8)).is_none());
}

#[test]
fn networks_by_interface() {
    let mut t = RouteTable::new();
    t.insert(v4_route([10, 0, 0, 0], 8, 1, Some(5), 1));
    t.insert(v4_route([192, 168, 1, 0], 24, 1, Some(5), 2));
    t.insert(v4_route([192, 168, 1, 0], 24, 2, Some(9), 3));
    let through: Vec<u64> = t.find_by_oif(1).unwrap().iter().map(|r| r.id).collect();
    assert_eq!(through, [1, 2]);
    // The network already had a route, so the one through interface 2 was
    // not added; the network is still listed for the interface.
    assert!(t.find_by_oif(2).unwrap().is_empty());
    assert!(t.find_by_oif(7).is_none());

    let nets = t.remove_by_oif(1).unwrap();
    assert_eq!(nets, [v4_net([10, 0, 0, 0], 8), v4_net([192, 168, 1, 0], 24)]);
    assert!(t.find(&v4_net([10, 0, 0, 0], 8)).is_none());
    assert!(t.find(&v4_net([192, 168, 1, 0], 24)).is_none());
    assert!(t.remove_by_oif(1).is_none());
}

#[test]
fn default_routes_and_listing() {
    let mut t = RouteTable::new();
    t.insert(v4_route([0, 0, 0, 0], 0, 1, Some(1), 10));
    let v6 = Route {
        destination: IpAddr::V6(Ipv6Addr::new(0, 0, 0, 0, 0, 0, 0, 0)),
        prefix: 0,
        gateway: None,
        if_index: Some(2),
        metric: None,
        id: 20,
    };
    t.insert(v6);
    assert_eq!(t.find_default(false).unwrap()[0].id, 10);
    assert_eq!(t.find_default(true).unwrap()[0].id, 20);
    assert_eq!(t.v4_routes().len(), 1);
    assert_eq!(t.v6_routes().len(), 1);
    assert_eq!(t.all_routes().iter().map(|r| r.id).collect::<Vec<_>>(), [10, 20]);
    assert_eq!(t.remove_default_route(true).map(|r| r.id), Some(20));
    assert!(t.find_default(true).is_none());
    assert!(t.find(&PrefixedIpAddr::V6(PrefixedIpv6Addr::unspecified())).is_none());
    t.clear();
    assert!(t.find_default(false).is_none());
    assert!(t.all_routes().is_empty());
}
