//! The route manager's decisions: which gateways to keep as backups when
//! interfaces come and go, which default routes to add, which routes died
//! with an interface and where they can be sent instead, and how the table
//! follows the kernel's route changes.
use vstd::prelude::*;

use crate::backup::{BackupRouteTable, links_after_insert, links_after_remove, outputs};
use crate::daemon::InterfaceEventKind;
use crate::interface::InterfaceInfo;
use crate::ip::{
    IpAddr, Ipv4Addr, Ipv6Addr, PrefixedIpAddr, PrefixedIpv4Addr, PrefixedIpv6Addr, v4_mask,
    v6_mask,
};
use crate::route_table::{
    Route, RouteTable, RouteTableView, after_insert, after_remove, default_net, net_of,
    routes_through, routes_to,
};
use crate::state::ConnectionState;

verus! {

/// The networks of a list of IPv4 addresses.
pub open spec fn v4_nets(addrs: Seq<PrefixedIpv4Addr>) -> Seq<PrefixedIpv4Addr> {
    addrs.map_values(
        |a: PrefixedIpv4Addr|
            PrefixedIpv4Addr {
                addr: Ipv4Addr { bits: a.addr.bits & v4_mask(a.prefix_len) },
                prefix_len: a.prefix_len,
            },
    )
}

/// The networks of a list of IPv6 addresses.
pub open spec fn v6_nets(addrs: Seq<PrefixedIpv6Addr>) -> Seq<PrefixedIpv6Addr> {
    addrs.map_values(
        |a: PrefixedIpv6Addr|
            PrefixedIpv6Addr {
                addr: Ipv6Addr { bits: a.addr.bits & v6_mask(a.prefix_len) },
                prefix_len: a.prefix_len,
            },
    )
}

fn v4_net_list(addrs: &Vec<PrefixedIpv4Addr>) -> (r: Vec<PrefixedIpv4Addr>)
    requires
        forall|i: int| 0 <= i < addrs@.len() ==> (#[trigger] addrs@[i]).prefix_len <= 32,
    ensures
        r@ == v4_nets(addrs@),
{
    let mut out: Vec<PrefixedIpv4Addr> = Vec::new();
    let mut i: usize = 0;
    while i < addrs.len()
        invariant
            0 <= i <= addrs@.len(),
            forall|j: int| 0 <= j < addrs@.len() ==> (#[trigger] addrs@[j]).prefix_len <= 32,
            out@ == v4_nets(addrs@.take(i as int)),
        decreases addrs@.len() - i,
    {
        out.push(addrs[i].net_id());
        i = i + 1;
        assert(out@ =~= v4_nets(addrs@.take(i as int)));
    }
    assert(addrs@.take(i as int) =~= addrs@);
    out
}

fn v6_net_list(addrs: &Vec<PrefixedIpv6Addr>) -> (r: Vec<PrefixedIpv6Addr>)
    requires
        forall|i: int| 0 <= i < addrs@.len() ==> (#[trigger] addrs@[i]).prefix_len <= 128,
    ensures
        r@ == v6_nets(addrs@),
{
    let mut out: Vec<PrefixedIpv6Addr> = Vec::new();
    let mut i: usize = 0;
    while i < addrs.len()
        invariant
            0 <= i <= addrs@.len(),
            forall|j: int| 0 <= j < addrs@.len() ==> (#[trigger] addrs@[j]).prefix_len <= 128,
            out@ == v6_nets(addrs@.take(i as int)),
        decreases addrs@.len() - i,
    {
        out.push(addrs[i].net_id());
        i = i + 1;
        assert(out@ =~= v6_nets(addrs@.take(i as int)));
    }
    assert(addrs@.take(i as int) =~= addrs@);
    out
}

/// The addresses of an interface have prefix lengths in range.
pub open spec fn prefixes_ok(info: InterfaceInfo) -> bool {
    &&& forall|i: int| 0 <= i < info.ipv4_addrs@.len() ==> (#[trigger] info.ipv4_addrs@[i]).prefix_len <= 32
    &&& forall|i: int| 0 <= i < info.ipv6_addrs@.len() ==> (#[trigger] info.ipv6_addrs@[i]).prefix_len <= 128
}

/// Records the IPv4 gateway of an interface, or forgets the interface when
/// it has none.
fn track_v4(backup: &mut BackupRouteTable<PrefixedIpv4Addr>, info: &InterfaceInfo, forget_without: bool)
    requires
        old(backup).wf(),
        prefixes_ok(*info),
    ensures
        final(backup).wf(),
        match info.gateway_ipv4 {
            Some(gw) => final(backup).gateways() == old(backup).gateways().insert(info.id, gw)
                && final(backup).links() == links_after_insert(
                old(backup).links(),
                info.id,
                v4_nets(info.ipv4_addrs@),
            ),
            None => if forget_without {
                final(backup).gateways() == old(backup).gateways().remove(info.id)
                    && final(backup).links() == links_after_remove(old(backup).links(), info.id)
            } else {
                final(backup).gateways() == old(backup).gateways() && final(backup).links()
                    == old(backup).links()
            },
        },
{
    match info.gateway_ipv4 {
        Some(gw) => {
            let nets = v4_net_list(&info.ipv4_addrs);
            backup.insert(info.id, gw, nets);
        },
        None => {
            if forget_without {
                backup.remove(info.id);
            }
        },
    }
}

/// Records the IPv6 gateway of an interface, or forgets the interface when
/// it has none.
fn track_v6(backup: &mut BackupRouteTable<PrefixedIpv6Addr>, info: &InterfaceInfo, forget_without: bool)
    requires
        old(backup).wf(),
        prefixes_ok(*info),
    ensures
        final(backup).wf(),
        match info.gateway_ipv6 {
            Some(gw) => final(backup).gateways() == old(backup).gateways().insert(info.id, gw)
                && final(backup).links() == links_after_insert(
                old(backup).links(),
                info.id,
                v6_nets(info.ipv6_addrs@),
            ),
            None => if forget_without {
                final(backup).gateways() == old(backup).gateways().remove(info.id)
                    && final(backup).links() == links_after_remove(old(backup).links(), info.id)
            } else {
                final(backup).gateways() == old(backup).gateways() && final(backup).links()
                    == old(backup).links()
            },
        },
{
    match info.gateway_ipv6 {
        Some(gw) => {
            let nets = v6_net_list(&info.ipv6_addrs);
            backup.insert(info.id, gw, nets);
        },
        None => {
            if forget_without {
                backup.remove(info.id);
            }
        },
    }
}

/// Follows an interface event in the backup gateways: an added interface's
/// gateways are recorded; a removed one is forgotten; a changed one has its
/// gateways recorded or forgotten, and is forgotten when it is not
/// connected. Returns whether the routes through the interface died (it
/// was removed, or changed to a state other than connected).
pub fn track_interface(
    v4: &mut BackupRouteTable<PrefixedIpv4Addr>,
    v6: &mut BackupRouteTable<PrefixedIpv6Addr>,
    kind: InterfaceEventKind,
    info: &InterfaceInfo,
) -> (dead: bool)
    requires
        old(v4).wf(),
        old(v6).wf(),
        prefixes_ok(*info),
    ensures
        final(v4).wf(),
        final(v6).wf(),
        dead == (kind == InterfaceEventKind::Removed || (kind == InterfaceEventKind::Changed
            && info.state != ConnectionState::Connected)),
        dead ==> final(v4).gateways() == old(v4).gateways().remove(info.id) && final(v4).links()
            == links_after_remove(old(v4).links(), info.id) && final(v6).gateways() == old(
            v6,
        ).gateways().remove(info.id) && final(v6).links() == links_after_remove(
            old(v6).links(),
            info.id,
        ),
        !dead ==> (match info.gateway_ipv4 {
            Some(gw) => final(v4).gateways() == old(v4).gateways().insert(info.id, gw)
                && final(v4).links() == links_after_insert(
                old(v4).links(),
                info.id,
                v4_nets(info.ipv4_addrs@),
            ),
            None => if kind == InterfaceEventKind::Changed {
                final(v4).gateways() == old(v4).gateways().remove(info.id) && final(v4).links()
                    == links_after_remove(old(v4).links(), info.id)
            } else {
                final(v4).gateways() == old(v4).gateways() && final(v4).links() == old(
                    v4,
                ).links()
            },
        }),
        !dead ==> (match info.gateway_ipv6 {
            Some(gw) => final(v6).gateways() == old(v6).gateways().insert(info.id, gw)
                && final(v6).links() == links_after_insert(
                old(v6).links(),
                info.id,
                v6_nets(info.ipv6_addrs@),
            ),
            None => if kind == InterfaceEventKind::Changed {
                final(v6).gateways() == old(v6).gateways().remove(info.id) && final(v6).links()
                    == links_after_remove(old(v6).links(), info.id)
            } else {
                final(v6).gateways() == old(v6).gateways() && final(v6).links() == old(
                    v6,
                ).links()
            },
        }),
{
    match kind {
        InterfaceEventKind::Added => {
            track_v4(v4, info, false);
            track_v6(v6, info, false);
            false
        },
        InterfaceEventKind::Removed => {
            v4.remove(info.id);
            v6.remove(info.id);
            true
        },
        InterfaceEventKind::Changed => {
            let connected = match info.state {
                ConnectionState::Connected => true,
                _ => false,
            };
            if connected {
                track_v4(v4, info, true);
                track_v6(v6, info, true);
                false
            } else {
                v4.remove(info.id);
                v6.remove(info.id);
                true
            }
        },
    }
}

/// The default routes to add: for each family with no default route, a
/// route through one of the recorded gateways, when there is one.
pub fn default_routes_needed(
    table: &RouteTable,
    v4: &BackupRouteTable<PrefixedIpv4Addr>,
    v6: &BackupRouteTable<PrefixedIpv6Addr>,
) -> (r: (Option<(PrefixedIpv4Addr, u32)>, Option<(PrefixedIpv6Addr, u32)>))
    requires
        table.wf(),
        v4.wf(),
        v6.wf(),
    ensures
        r.0 is Some <==> (routes_to(table.view(), default_net(false)) is None && v4.gateways().dom().len() > 0),
        r.0 matches Some((gw, oif)) ==> v4.gateways().contains_key(oif) && v4.gateways()[oif] == gw,
        r.1 is Some <==> (routes_to(table.view(), default_net(true)) is None && v6.gateways().dom().len() > 0),
        r.1 matches Some((gw, oif)) ==> v6.gateways().contains_key(oif) && v6.gateways()[oif] == gw,
{
    let d4 = if table.find_default(false).is_none() {
        let g = v4.available_gateways();
        if g.len() > 0 {
            assert(g@.contains(g@[0]));
            Some(g[0])
        } else {
            None
        }
    } else {
        None
    };
    let d6 = if table.find_default(true).is_none() {
        let g = v6.available_gateways();
        if g.len() > 0 {
            assert(g@.contains(g@[0]));
            Some(g[0])
        } else {
            None
        }
    } else {
        None
    };
    (d4, d6)
}

/// A route that died with its interface, and the interface that reaches its
/// network instead, if another one does.
#[derive(Debug, Clone, Copy)]
pub struct DeadRoute {
    pub route: Route,
    pub replacement: Option<u32>,
}

/// The interfaces that reach a route's network, by the backup records.
pub open spec fn route_outputs(
    v4: Set<(u32, PrefixedIpv4Addr)>,
    v6: Set<(u32, PrefixedIpv6Addr)>,
    r: Route,
) -> Set<u32> {
    match net_of(r) {
        PrefixedIpAddr::V4(k) => outputs(v4, k),
        PrefixedIpAddr::V6(k) => outputs(v6, k),
    }
}

/// Another interface than `oif` that reaches the network, if any.
fn other_output(outs: Option<Vec<u32>>, oif: u32) -> (r: Option<u32>)
    ensures
        match outs {
            Some(v) => match r {
                Some(o) => v@.contains(o) && o != oif,
                None => forall|o: u32| v@.contains(o) ==> o == oif,
            },
            None => r is None,
        },
{
    match outs {
        Some(v) => {
            let mut i: usize = 0;
            while i < v.len()
                invariant
                    0 <= i <= v@.len(),
                    outs == Some(v),
                    forall|j: int| 0 <= j < i ==> v@[j] == oif,
                decreases v@.len() - i,
            {
                if v[i] != oif {
                    assert(v@.contains(v@[i as int]));
                    return Some(v[i]);
                }
                i = i + 1;
            }
            assert forall|o: u32| v@.contains(o) implies o == oif by {
                let j = choose|j: int| 0 <= j < v@.len() && v@[j] == o;
            }
            None
        },
        None => None,
    }
}

/// The routes through an interface that died with it, each with another
/// interface that reaches its network, when one does.
pub fn dead_routes(
    table: &RouteTable,
    v4: &BackupRouteTable<PrefixedIpv4Addr>,
    v6: &BackupRouteTable<PrefixedIpv6Addr>,
    oif: u32,
) -> (r: Vec<DeadRoute>)
    requires
        table.wf(),
        v4.wf(),
        v6.wf(),
    ensures
        r@.map_values(|d: DeadRoute| d.route) == (if table.view().by_oif.contains_key(oif) {
            routes_through(table.view(), table.view().by_oif[oif], oif)
        } else {
            Seq::empty()
        }),
        forall|i: int|
            0 <= i < r@.len() ==> match (#[trigger] r@[i]).replacement {
                Some(o) => route_outputs(v4.links(), v6.links(), r@[i].route).contains(o) && o != oif,
                None => forall|o: u32|
                    route_outputs(v4.links(), v6.links(), r@[i].route).contains(o) ==> o == oif,
            },
{
    let routes = match table.find_by_oif(oif) {
        Some(v) => v,
        None => {
            let e: Vec<DeadRoute> = Vec::new();
            assert(e@.map_values(|d: DeadRoute| d.route) =~= Seq::<Route>::empty());
            return e;
        },
    };
    let mut out: Vec<DeadRoute> = Vec::new();
    let mut i: usize = 0;
    while i < routes.len()
        invariant
            0 <= i <= routes@.len(),
            v4.wf(),
            v6.wf(),
            out@.map_values(|d: DeadRoute| d.route) == routes@.take(i as int),
            forall|k: int|
                0 <= k < out@.len() ==> match (#[trigger] out@[k]).replacement {
                    Some(o) => route_outputs(v4.links(), v6.links(), out@[k].route).contains(o) && o
                        != oif,
                    None => forall|o: u32|
                        route_outputs(v4.links(), v6.links(), out@[k].route).contains(o) ==> o
                            == oif,
                },
        decreases routes@.len() - i,
    {
        let rt = routes[i];
        let replacement = match rt.destination {
            IpAddr::V4(a) => {
                let k = PrefixedIpv4Addr { addr: a, prefix_len: rt.prefix };
                let outs = v4.net_outputs(&k);
                proof {
                    if outs is Some {
                        let v = outs.unwrap();
                        assert forall|o: u32| v@.contains(o) <==> outputs(v4.links(), k).contains(o) by {
                            assert(v@.to_set().contains(o) <==> v@.contains(o));
                        }
                    } else {
                        assert forall|o: u32| !outputs(v4.links(), k).contains(o) by {
                            assert(!Set::<u32>::empty().contains(o));
                        }
                    }
                }
                other_output(outs, oif)
            },
            IpAddr::V6(a) => {
                let k = PrefixedIpv6Addr { addr: a, prefix_len: rt.prefix };
                let outs = v6.net_outputs(&k);
                proof {
                    if outs is Some {
                        let v = outs.unwrap();
                        assert forall|o: u32| v@.contains(o) <==> outputs(v6.links(), k).contains(o) by {
                            assert(v@.to_set().contains(o) <==> v@.contains(o));
                        }
                    } else {
                        assert forall|o: u32| !outputs(v6.links(), k).contains(o) by {
                            assert(!Set::<u32>::empty().contains(o));
                        }
                    }
                }
                other_output(outs, oif)
            },
        };
        let ghost before = out@;
        out.push(DeadRoute { route: rt, replacement });
        assert(out@.map_values(|d: DeadRoute| d.route) =~= before.map_values(|d: DeadRoute| d.route).push(rt));
        assert(routes@.take(i + 1) =~= routes@.take(i as int).push(routes@[i as int]));
        i = i + 1;
    }
    assert(routes@.take(i as int) =~= routes@);
    out
}

/// How the kernel changed a route.
#[derive(Debug, Clone, Copy, PartialEq, Eq, Structural)]
pub enum RouteChangeKind {
    Add,
    Delete,
    Change,
}

/// The table after a change the kernel reports.
pub open spec fn after_change(t: RouteTableView, kind: RouteChangeKind, r: Route) -> RouteTableView {
    match kind {
        RouteChangeKind::Add => after_insert(t, r),
        RouteChangeKind::Delete => after_remove(t, net_of(r)).0,
        RouteChangeKind::Change => after_insert(after_remove(t, net_of(r)).0, r),
    }
}

/// Follows a route change in the table: an added route is inserted, a
/// deleted one takes out the most preferred route to its network, a changed
/// one does both.
pub fn apply_route_change(table: &mut RouteTable, kind: RouteChangeKind, route: Route)
    requires
        old(table).wf(),
        kind != RouteChangeKind::Delete ==> route.if_index is Some,
    ensures
        final(table).wf(),
        final(table).view() == after_change(old(table).view(), kind, route),
{
    let net = match route.destination {
        IpAddr::V4(a) => PrefixedIpAddr::V4(PrefixedIpv4Addr { addr: a, prefix_len: route.prefix }),
        IpAddr::V6(a) => PrefixedIpAddr::V6(PrefixedIpv6Addr { addr: a, prefix_len: route.prefix }),
    };
    match kind {
        RouteChangeKind::Add => table.insert(route),
        RouteChangeKind::Delete => {
            table.remove(&net);
        },
        RouteChangeKind::Change => {
            table.remove(&net);
            table.insert(route);
        },
    }
}

} // verus!
