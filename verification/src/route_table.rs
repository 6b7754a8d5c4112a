//! The routing table the route manager keeps: routes by destination
//! network, in order of preference, and the networks reached through each
//! interface.
use vstd::prelude::*;

use crate::assoc::{AssocVec, KeyEq, lemma_map_of, map_of};
use crate::ip::{IpAddr, Ipv4Addr, Ipv6Addr, PrefixedIpAddr, PrefixedIpv4Addr, PrefixedIpv6Addr};

verus! {

/// A route, as the table reads it. `id` finds again the route of the
/// routing socket that this one stands for.
#[derive(Debug, Clone, Copy, PartialEq, Eq, Structural)]
pub struct Route {
    pub destination: IpAddr,
    pub prefix: u8,
    pub gateway: Option<IpAddr>,
    pub if_index: Option<u32>,
    pub metric: Option<u32>,
    pub id: u64,
}

impl View for PrefixedIpv4Addr {
    type V = PrefixedIpv4Addr;

    open spec fn view(&self) -> PrefixedIpv4Addr {
        *self
    }
}

impl KeyEq for PrefixedIpv4Addr {
    fn key_eq(&self, other: &PrefixedIpv4Addr) -> (r: bool) {
        *self == *other
    }
}

impl View for PrefixedIpv6Addr {
    type V = PrefixedIpv6Addr;

    open spec fn view(&self) -> PrefixedIpv6Addr {
        *self
    }
}

impl KeyEq for PrefixedIpv6Addr {
    fn key_eq(&self, other: &PrefixedIpv6Addr) -> (r: bool) {
        *self == *other
    }
}

/// How much a route is preferred among the routes to one network. The
/// daemon runs on FreeBSD, where `route_manager` orders routes by their
/// prefix alone (it compares metrics only on Linux and Windows), so all
/// routes to one network rank the same and count as the same route: the set
/// of a network keeps the first route it is given.
pub open spec fn rank(r: Route) -> int {
    0
}

/// A set of routes to one network: each rank once, the most preferred
/// first.
pub open spec fn ranked(s: Seq<Route>) -> bool {
    forall|i: int, j: int| 0 <= i < j < s.len() ==> rank(#[trigger] s[i]) > rank(#[trigger] s[j])
}

/// A set of routes with one more route: unchanged when a route of the same
/// rank is there, else the route in its place.
pub open spec fn with_route(s: Seq<Route>, r: Route) -> Seq<Route>
    decreases s.len(),
{
    if s.len() == 0 {
        seq![r]
    } else if rank(s[0]) == rank(r) {
        s
    } else if rank(s[0]) < rank(r) {
        seq![r] + s
    } else {
        seq![s[0]] + with_route(s.drop_first(), r)
    }
}

/// A set of networks with one more network.
pub open spec fn with_net(s: Seq<PrefixedIpAddr>, a: PrefixedIpAddr) -> Seq<PrefixedIpAddr> {
    if s.contains(a) {
        s
    } else {
        s.push(a)
    }
}

/// A set of networks without a network.
pub open spec fn without_net(s: Seq<PrefixedIpAddr>, a: PrefixedIpAddr) -> Seq<PrefixedIpAddr>
    decreases s.len(),
{
    if s.len() == 0 {
        s
    } else if s.last() == a {
        without_net(s.drop_last(), a)
    } else {
        without_net(s.drop_last(), a).push(s.last())
    }
}

/// The table's content.
pub struct RouteTableView {
    pub v4: Map<PrefixedIpv4Addr, Seq<Route>>,
    pub v6: Map<PrefixedIpv6Addr, Seq<Route>>,
    pub by_oif: Map<u32, Seq<PrefixedIpAddr>>,
}

/// The routing table.
pub struct RouteTable {
    v4: AssocVec<PrefixedIpv4Addr, Vec<Route>>,
    v6: AssocVec<PrefixedIpv6Addr, Vec<Route>>,
    by_oif: AssocVec<u32, Vec<PrefixedIpAddr>>,
}

/// The network a route leads to.
pub open spec fn net_of(r: Route) -> PrefixedIpAddr {
    match r.destination {
        IpAddr::V4(a) => PrefixedIpAddr::V4(PrefixedIpv4Addr { addr: a, prefix_len: r.prefix }),
        IpAddr::V6(a) => PrefixedIpAddr::V6(PrefixedIpv6Addr { addr: a, prefix_len: r.prefix }),
    }
}

/// The routes to a network, if the table has any.
pub open spec fn routes_to(t: RouteTableView, a: PrefixedIpAddr) -> Option<Seq<Route>> {
    match a {
        PrefixedIpAddr::V4(k) => if t.v4.contains_key(k) {
            Some(t.v4[k])
        } else {
            None
        },
        PrefixedIpAddr::V6(k) => if t.v6.contains_key(k) {
            Some(t.v6[k])
        } else {
            None
        },
    }
}

/// The table with the routes to a network set (or dropped).
pub open spec fn set_routes(t: RouteTableView, a: PrefixedIpAddr, s: Seq<Route>) -> RouteTableView {
    match a {
        PrefixedIpAddr::V4(k) => RouteTableView {
            v4: if s.len() == 0 {
                t.v4.remove(k)
            } else {
                t.v4.insert(k, s)
            },
            ..t
        },
        PrefixedIpAddr::V6(k) => RouteTableView {
            v6: if s.len() == 0 {
                t.v6.remove(k)
            } else {
                t.v6.insert(k, s)
            },
            ..t
        },
    }
}

/// The table after a route is added: the route among the routes to its
/// network, and the network among those reached through its interface.
pub open spec fn after_insert(t: RouteTableView, r: Route) -> RouteTableView {
    let a = net_of(r);
    let oif = r.if_index.unwrap();
    let old_set = match routes_to(t, a) {
        Some(s) => s,
        None => Seq::empty(),
    };
    let old_nets = if t.by_oif.contains_key(oif) {
        t.by_oif[oif]
    } else {
        Seq::empty()
    };
    RouteTableView {
        by_oif: t.by_oif.insert(oif, with_net(old_nets, a)),
        ..set_routes(t, a, with_route(old_set, r))
    }
}

/// The table after the most preferred route to a network is taken out:
/// the network leaves the networks of the route's interface, and leaves the
/// table with its last route.
pub open spec fn after_remove(t: RouteTableView, a: PrefixedIpAddr) -> (RouteTableView, Option<Route>) {
    match routes_to(t, a) {
        Some(s) => if s.len() > 0 {
            let r = s[0];
            let oif = r.if_index.unwrap();
            let t1 = set_routes(t, a, s.drop_first());
            (
                RouteTableView {
                    by_oif: if t.by_oif.contains_key(oif) {
                        t.by_oif.insert(oif, without_net(t.by_oif[oif], a))
                    } else {
                        t.by_oif
                    },
                    ..t1
                },
                Some(r),
            )
        } else {
            (t, None)
        },
        None => (t, None),
    }
}

proof fn lemma_with_route(s: Seq<Route>, r: Route)
    requires
        ranked(s),
    ensures
        ranked(with_route(s, r)),
        forall|x: Route| #[trigger] with_route(s, r).contains(x) ==> x == r || s.contains(x),
        with_route(s, r).len() > 0,
    decreases s.len(),
{
    if s.len() > 0 && rank(s[0]) > rank(r) {
        let u = s.drop_first();
        assert(ranked(u)) by {
            assert forall|i: int, j: int| 0 <= i < j < u.len() implies rank(#[trigger] u[i]) > rank(
                #[trigger] u[j],
            ) by {
                assert(u[i] == s[i + 1] && u[j] == s[j + 1]);
            }
        }
        lemma_with_route(u, r);
        let w = with_route(u, r);
        let t = seq![s[0]] + w;
        assert forall|i: int, j: int| 0 <= i < j < t.len() implies rank(#[trigger] t[i]) > rank(
            #[trigger] t[j],
        ) by {
            if i == 0 {
                assert(t[j] == w[j - 1]);
                assert(w.contains(w[j - 1]));
                if w[j - 1] != r {
                    let m = choose|m: int| 0 <= m < u.len() && u[m] == w[j - 1];
                    assert(u[m] == s[m + 1]);
                }
            } else {
                assert(t[i] == w[i - 1] && t[j] == w[j - 1]);
            }
        }
        assert forall|x: Route| #[trigger] t.contains(x) implies x == r || s.contains(x) by {
            let m = choose|m: int| 0 <= m < t.len() && t[m] == x;
            if m == 0 {
                assert(s[0] == x);
            } else {
                assert(w[m - 1] == x);
                assert(w.contains(x));
                if x != r {
                    let q = choose|q: int| 0 <= q < u.len() && u[q] == x;
                    assert(s[q + 1] == x);
                }
            }
        }
    } else if s.len() > 0 && rank(s[0]) < rank(r) {
        let t = seq![r] + s;
        assert forall|i: int, j: int| 0 <= i < j < t.len() implies rank(#[trigger] t[i]) > rank(
            #[trigger] t[j],
        ) by {
            if i == 0 {
                assert(t[j] == s[j - 1]);
                if j - 1 > 0 {
                    assert(rank(s[0]) > rank(s[j - 1]));
                }
            } else {
                assert(t[i] == s[i - 1] && t[j] == s[j - 1]);
            }
        }
        assert forall|x: Route| #[trigger] t.contains(x) implies x == r || s.contains(x) by {
            let m = choose|m: int| 0 <= m < t.len() && t[m] == x;
            if m > 0 {
                assert(s[m - 1] == x);
            }
        }
    } else if s.len() == 0 {
        assert forall|x: Route| #[trigger] seq![r].contains(x) implies x == r || s.contains(x) by {
            let m = choose|m: int| 0 <= m < 1 && seq![r][m] == x;
        }
    }
}

proof fn lemma_with_net(s: Seq<PrefixedIpAddr>, a: PrefixedIpAddr)
    requires
        s.no_duplicates(),
    ensures
        with_net(s, a).no_duplicates(),
{
    if !s.contains(a) {
        let t = s.push(a);
        assert forall|i: int, j: int| 0 <= i < t.len() && 0 <= j < t.len() && i != j implies t[i]
            != t[j] by {
            if i == s.len() {
                assert(t[j] == s[j]);
            } else if j == s.len() {
                assert(t[i] == s[i]);
            } else {
                assert(t[i] == s[i] && t[j] == s[j]);
            }
        }
    }
}

proof fn lemma_without_net(s: Seq<PrefixedIpAddr>, a: PrefixedIpAddr)
    requires
        s.no_duplicates(),
    ensures
        without_net(s, a).no_duplicates(),
        forall|x: PrefixedIpAddr| #[trigger] without_net(s, a).contains(x) ==> s.contains(x) && x != a,
    decreases s.len(),
{
    if s.len() > 0 {
        let u = s.drop_last();
        assert(u.no_duplicates()) by {
            assert forall|i: int, j: int| 0 <= i < u.len() && 0 <= j < u.len() && i != j implies u[i]
                != u[j] by {
                assert(u[i] == s[i] && u[j] == s[j]);
            }
        }
        lemma_without_net(u, a);
        let w = without_net(u, a);
        assert forall|x: PrefixedIpAddr| #[trigger] w.contains(x) implies s.contains(x) by {
            let m = choose|m: int| 0 <= m < u.len() && u[m] == x;
            assert(s[m] == x);
        }
        if s.last() != a {
            let t = w.push(s.last());
            assert(!w.contains(s.last())) by {
                if w.contains(s.last()) {
                    let m = choose|m: int| 0 <= m < u.len() && u[m] == s.last();
                    assert(s[m] == s[s.len() - 1]);
                }
            }
            assert forall|i: int, j: int| 0 <= i < t.len() && 0 <= j < t.len() && i != j implies t[i]
                != t[j] by {
                if i == w.len() {
                    assert(w.contains(t[j]));
                } else if j == w.len() {
                    assert(w.contains(t[i]));
                }
            }
            assert forall|x: PrefixedIpAddr| #[trigger] t.contains(x) implies s.contains(x) && x != a by {
                let m = choose|m: int| 0 <= m < t.len() && t[m] == x;
                if m < w.len() {
                    assert(w.contains(x));
                } else {
                    assert(s[s.len() - 1] == x);
                }
            }
        }
    }
}

/// Adds a route to a ranked set of routes.
fn set_insert(set: &mut Vec<Route>, r: Route)
    requires
        ranked(old(set)@),
    ensures
        final(set)@ == with_route(old(set)@, r),
{
    if set.len() == 0 {
        set.push(r);
        assert(set@ =~= seq![r]);
    }
}


/// Adds a network to a set of networks.
fn net_add(nets: &mut Vec<PrefixedIpAddr>, a: PrefixedIpAddr)
    ensures
        final(nets)@ == with_net(old(nets)@, a),
{
    let mut i: usize = 0;
    while i < nets.len()
        invariant
            0 <= i <= nets@.len(),
            nets@ == old(nets)@,
            forall|j: int| 0 <= j < i ==> nets@[j] != a,
        decreases nets@.len() - i,
    {
        if nets[i] == a {
            assert(nets@.contains(a));
            return;
        }
        i = i + 1;
    }
    nets.push(a);
}

/// Takes a network out of a set of networks.
fn net_remove(nets: &mut Vec<PrefixedIpAddr>, a: PrefixedIpAddr)
    ensures
        final(nets)@ == without_net(old(nets)@, a),
{
    let mut out: Vec<PrefixedIpAddr> = Vec::new();
    let mut i: usize = 0;
    while i < nets.len()
        invariant
            0 <= i <= nets@.len(),
            nets@ == old(nets)@,
            out@ == without_net(nets@.take(i as int), a),
        decreases nets@.len() - i,
    {
        assert(nets@.take(i + 1).drop_last() =~= nets@.take(i as int));
        if nets[i] != a {
            out.push(nets[i]);
        }
        i = i + 1;
    }
    assert(nets@.take(i as int) =~= nets@);
    *nets = out;
}

impl RouteTable {
    /// The table's content.
    pub closed spec fn view(&self) -> RouteTableView {
        RouteTableView {
            v4: self.v4.map().map_values(|v: Vec<Route>| v@),
            v6: self.v6.map().map_values(|v: Vec<Route>| v@),
            by_oif: self.by_oif.map().map_values(|v: Vec<PrefixedIpAddr>| v@),
        }
    }

    /// The table is well formed: its maps keep each key once, every set of
    /// routes is ranked, and every route has an interface.
    pub closed spec fn wf(&self) -> bool {
        &&& self.v4.wf()
        &&& self.v6.wf()
        &&& self.by_oif.wf()
        &&& table_ok(self.view())
    }
}

/// Adding a route keeps the table's invariant.
proof fn lemma_insert_ok(t: RouteTableView, r: Route)
    requires
        table_ok(t),
        r.if_index is Some,
    ensures
        table_ok(after_insert(t, r)),
{
    let a = net_of(r);
    let old_set = match routes_to(t, a) {
        Some(s) => s,
        None => Seq::empty(),
    };
    lemma_with_route(old_set, r);
    let w = with_route(old_set, r);
    assert forall|i: int| 0 <= i < w.len() implies (#[trigger] w[i]).if_index is Some by {
        assert(w.contains(w[i]));
        if w[i] != r {
            let m = choose|m: int| 0 <= m < old_set.len() && old_set[m] == w[i];
        }
    }
    let oif = r.if_index.unwrap();
    let old_nets = if t.by_oif.contains_key(oif) {
        t.by_oif[oif]
    } else {
        Seq::empty()
    };
    lemma_with_net(old_nets, a);
}

/// Taking the most preferred route out keeps the table's invariant.
proof fn lemma_remove_ok(t: RouteTableView, a: PrefixedIpAddr)
    requires
        table_ok(t),
    ensures
        table_ok(after_remove(t, a).0),
{
    match routes_to(t, a) {
        Some(s) => if s.len() > 0 {
            let u = s.drop_first();
            assert(ranked(u)) by {
                assert forall|i: int, j: int| 0 <= i < j < u.len() implies rank(#[trigger] u[i])
                    > rank(#[trigger] u[j]) by {
                    assert(u[i] == s[i + 1] && u[j] == s[j + 1]);
                }
            }
            assert forall|i: int| 0 <= i < u.len() implies (#[trigger] u[i]).if_index is Some by {
                assert(u[i] == s[i + 1]);
            }
            let oif = s[0].if_index.unwrap();
            if t.by_oif.contains_key(oif) {
                lemma_without_net(t.by_oif[oif], a);
            }
        },
        None => {},
    }
}

/// The routes of every entry, entry after entry.
fn flatten_sets<K: KeyEq>(entries: &Vec<(K, Vec<Route>)>) -> (r: Vec<Route>)
    ensures
        forall|x: Route|
            r@.contains(x) <==> exists|j: int|
                0 <= j < entries@.len() && (#[trigger] entries@[j]).1@.contains(x),
{
    let mut out: Vec<Route> = Vec::new();
    let mut i: usize = 0;
    while i < entries.len()
        invariant
            0 <= i <= entries@.len(),
            forall|x: Route|
                out@.contains(x) <==> exists|j: int|
                    0 <= j < i && (#[trigger] entries@[j]).1@.contains(x),
        decreases entries@.len() - i,
    {
        let set = &entries[i].1;
        let ghost before = out@;
        let mut k: usize = 0;
        while k < set.len()
            invariant
                0 <= k <= set@.len(),
                *set == entries@[i as int].1,
                out@ == before + set@.take(k as int),
            decreases set@.len() - k,
        {
            out.push(set[k]);
            k = k + 1;
            assert(out@ =~= before + set@.take(k as int));
        }
        assert(set@.take(k as int) =~= set@);
        assert forall|x: Route| out@.contains(x) <==> exists|j: int|
            0 <= j < i + 1 && (#[trigger] entries@[j]).1@.contains(x) by {
            if out@.contains(x) {
                let m = choose|m: int| 0 <= m < out@.len() && out@[m] == x;
                if m < before.len() {
                    assert(before.contains(x));
                } else {
                    assert(set@[m - before.len()] == x);
                    assert(entries@[i as int].1@.contains(x));
                }
            }
            if exists|j: int| 0 <= j < i + 1 && (#[trigger] entries@[j]).1@.contains(x) {
                let j = choose|j: int| 0 <= j < i + 1 && (#[trigger] entries@[j]).1@.contains(x);
                if j < i {
                    assert(before.contains(x));
                    let m = choose|m: int| 0 <= m < before.len() && before[m] == x;
                    assert(out@[m] == x);
                } else {
                    let m = choose|m: int| 0 <= m < set@.len() && set@[m] == x;
                    assert(out@[before.len() + m] == x);
                }
            }
        }
        i = i + 1;
    }
    out
}

impl RouteTable {
    /// An empty table.
    pub fn new() -> (r: RouteTable)
        ensures
            r.wf(),
            r.view().v4 == Map::<PrefixedIpv4Addr, Seq<Route>>::empty(),
            r.view().v6 == Map::<PrefixedIpv6Addr, Seq<Route>>::empty(),
            r.view().by_oif == Map::<u32, Seq<PrefixedIpAddr>>::empty(),
    {
        let r = RouteTable { v4: AssocVec::new(), v6: AssocVec::new(), by_oif: AssocVec::new() };
        assert(r.view().v4 =~= Map::<PrefixedIpv4Addr, Seq<Route>>::empty());
        assert(r.view().v6 =~= Map::<PrefixedIpv6Addr, Seq<Route>>::empty());
        assert(r.view().by_oif =~= Map::<u32, Seq<PrefixedIpAddr>>::empty());
        r
    }

    /// Adds a route through an interface: to the routes to its network
    /// (unless one of the same rank is there), and its network to those of
    /// the interface.
    pub fn insert(&mut self, route: Route)
        requires
            old(self).wf(),
            route.if_index is Some,
        ensures
            final(self).wf(),
            final(self).view() == after_insert(old(self).view(), route),
    {
        let ghost t0 = self.view();
        let net = match route.destination {
            IpAddr::V4(a) => {
                let k = PrefixedIpv4Addr { addr: a, prefix_len: route.prefix };
                let mut set = match self.v4.remove(&k) {
                    Some(s) => s,
                    None => Vec::new(),
                };
                proof {
                    if !t0.v4.contains_key(k) {
                        assert(set@ =~= Seq::<Route>::empty());
                    }
                }
                set_insert(&mut set, route);
                proof {
                    lemma_with_route(if t0.v4.contains_key(k) { t0.v4[k] } else { Seq::empty() }, route);
                }
                self.v4.insert(k, set);
                PrefixedIpAddr::V4(k)
            },
            IpAddr::V6(a) => {
                let k = PrefixedIpv6Addr { addr: a, prefix_len: route.prefix };
                let mut set = match self.v6.remove(&k) {
                    Some(s) => s,
                    None => Vec::new(),
                };
                proof {
                    if !t0.v6.contains_key(k) {
                        assert(set@ =~= Seq::<Route>::empty());
                    }
                }
                set_insert(&mut set, route);
                proof {
                    lemma_with_route(if t0.v6.contains_key(k) { t0.v6[k] } else { Seq::empty() }, route);
                }
                self.v6.insert(k, set);
                PrefixedIpAddr::V6(k)
            },
        };
        let oif = route.if_index.unwrap();
        let mut nets = match self.by_oif.remove(&oif) {
            Some(s) => s,
            None => Vec::new(),
        };
        proof {
            if !t0.by_oif.contains_key(oif) {
                assert(nets@ =~= Seq::<PrefixedIpAddr>::empty());
            }
            lemma_with_net(nets@, net);
        }
        net_add(&mut nets, net);
        self.by_oif.insert(oif, nets);
        proof {
            let t1 = self.view();
            let e = after_insert(t0, route);
            assert(t1.v4 =~= e.v4);
            assert(t1.v6 =~= e.v6);
            assert(t1.by_oif =~= e.by_oif);
            lemma_insert_ok(t0, route);
        }
    }
    /// Takes out the network from the networks of an interface.
    fn forget_net(&mut self, oif: u32, a: PrefixedIpAddr)
        requires
            old(self).wf(),
        ensures
            final(self).v4 == old(self).v4,
            final(self).v6 == old(self).v6,
            final(self).by_oif.wf(),
            final(self).view().by_oif == (if old(self).view().by_oif.contains_key(oif) {
                old(self).view().by_oif.insert(oif, without_net(old(self).view().by_oif[oif], a))
            } else {
                old(self).view().by_oif
            }),
    {
        let ghost t0 = self.view();
        match self.by_oif.remove(&oif) {
            Some(mut nets) => {
                net_remove(&mut nets, a);
                self.by_oif.insert(oif, nets);
                assert(self.view().by_oif =~= t0.by_oif.insert(oif, without_net(t0.by_oif[oif], a)));
            },
            None => {
                assert(self.view().by_oif =~= t0.by_oif);
            },
        }
    }

    /// Takes out the most preferred route to a network and returns it; the
    /// network leaves the networks of the route's interface, and leaves the
    /// table with its last route. `None`, with nothing changed, when the
    /// table has no route to the network.
    pub fn remove(&mut self, addr: &PrefixedIpAddr) -> (r: Option<Route>)
        requires
            old(self).wf(),
        ensures
            final(self).wf(),
            final(self).view() == after_remove(old(self).view(), *addr).0,
            r == after_remove(old(self).view(), *addr).1,
    {
        let ghost t0 = self.view();
        proof {
            lemma_remove_ok(t0, *addr);
        }
        match addr {
            PrefixedIpAddr::V4(k) => {
                let mut set = match self.v4.remove(k) {
                    Some(s) => s,
                    None => {
                        assert(self.view().v4 =~= t0.v4);
                        return None;
                    },
                };
                if set.len() == 0 {
                    self.v4.insert(*k, set);
                    assert(self.view().v4 =~= t0.v4);
                    return None;
                }
                let rt = set.remove(0);
                if set.len() > 0 {
                    self.v4.insert(*k, set);
                }
                assert(self.view().v4 =~= set_routes(t0, *addr, t0.v4[*k].drop_first()).v4);
                let oif = rt.if_index.unwrap();
                self.forget_net(oif, *addr);
                assert(self.view().v6 =~= t0.v6);
                Some(rt)
            },
            PrefixedIpAddr::V6(k) => {
                let mut set = match self.v6.remove(k) {
                    Some(s) => s,
                    None => {
                        assert(self.view().v6 =~= t0.v6);
                        return None;
                    },
                };
                if set.len() == 0 {
                    self.v6.insert(*k, set);
                    assert(self.view().v6 =~= t0.v6);
                    return None;
                }
                let rt = set.remove(0);
                if set.len() > 0 {
                    self.v6.insert(*k, set);
                }
                assert(self.view().v6 =~= set_routes(t0, *addr, t0.v6[*k].drop_first()).v6);
                let oif = rt.if_index.unwrap();
                self.forget_net(oif, *addr);
                assert(self.view().v4 =~= t0.v4);
                Some(rt)
            },
        }
    }
}

/// The first route of a set that goes through the interface.
pub open spec fn route_through(s: Seq<Route>, oif: u32) -> Option<Route>
    decreases s.len(),
{
    if s.len() == 0 {
        None
    } else if s[0].if_index == Some(oif) {
        Some(s[0])
    } else {
        route_through(s.drop_first(), oif)
    }
}

/// For each network of a list, in order, the first of its routes through
/// the interface, where it has one.
pub open spec fn routes_through(t: RouteTableView, nets: Seq<PrefixedIpAddr>, oif: u32) -> Seq<Route>
    decreases nets.len(),
{
    if nets.len() == 0 {
        Seq::empty()
    } else {
        routes_through(t, nets.drop_last(), oif) + match routes_to(t, nets.last()) {
            Some(s) => match route_through(s, oif) {
                Some(r) => seq![r],
                None => Seq::empty(),
            },
            None => Seq::empty(),
        }
    }
}

/// The table after the most preferred route to each network of a list is
/// taken out, in order.
pub open spec fn remove_all(t: RouteTableView, nets: Seq<PrefixedIpAddr>) -> RouteTableView
    decreases nets.len(),
{
    if nets.len() == 0 {
        t
    } else {
        after_remove(remove_all(t, nets.drop_last()), nets.last()).0
    }
}

/// The table after the networks of an interface are forgotten and the
/// most preferred route to each of them is taken out.
pub open spec fn after_remove_by_oif(t: RouteTableView, oif: u32) -> (RouteTableView, Option<Seq<PrefixedIpAddr>>) {
    if t.by_oif.contains_key(oif) {
        (remove_all(RouteTableView { by_oif: t.by_oif.remove(oif), ..t }, t.by_oif[oif]), Some(t.by_oif[oif]))
    } else {
        (t, None)
    }
}

/// The default network of a family.
pub open spec fn default_net(v6: bool) -> PrefixedIpAddr {
    if v6 {
        PrefixedIpAddr::V6(PrefixedIpv6Addr { addr: Ipv6Addr { bits: 0 }, prefix_len: 0 })
    } else {
        PrefixedIpAddr::V4(PrefixedIpv4Addr { addr: Ipv4Addr { bits: 0 }, prefix_len: 0 })
    }
}

impl RouteTable {
    /// The routes to a network, most preferred first, if the table has any.
    pub fn find(&self, addr: &PrefixedIpAddr) -> (r: Option<Vec<Route>>)
        requires
            self.wf(),
        ensures
            match r {
                Some(v) => routes_to(self.view(), *addr) == Some(v@),
                None => routes_to(self.view(), *addr) is None,
            },
    {
        match addr {
            PrefixedIpAddr::V4(k) => match self.v4.get(k) {
                Some(v) => Some(v.clone()),
                None => None,
            },
            PrefixedIpAddr::V6(k) => match self.v6.get(k) {
                Some(v) => Some(v.clone()),
                None => None,
            },
        }
    }

    /// The routes to the default network of a family.
    pub fn find_default(&self, v6: bool) -> (r: Option<Vec<Route>>)
        requires
            self.wf(),
        ensures
            match r {
                Some(v) => routes_to(self.view(), default_net(v6)) == Some(v@),
                None => routes_to(self.view(), default_net(v6)) is None,
            },
    {
        let a = if v6 {
            PrefixedIpAddr::V6(PrefixedIpv6Addr::unspecified())
        } else {
            PrefixedIpAddr::V4(PrefixedIpv4Addr::unspecified())
        };
        self.find(&a)
    }

    /// Takes out the most preferred default route of a family.
    pub fn remove_default_route(&mut self, v6: bool) -> (r: Option<Route>)
        requires
            old(self).wf(),
        ensures
            final(self).wf(),
            final(self).view() == after_remove(old(self).view(), default_net(v6)).0,
            r == after_remove(old(self).view(), default_net(v6)).1,
    {
        let a = if v6 {
            PrefixedIpAddr::V6(PrefixedIpv6Addr::unspecified())
        } else {
            PrefixedIpAddr::V4(PrefixedIpv4Addr::unspecified())
        };
        self.remove(&a)
    }

    /// For each network reached through the interface, the first of its
    /// routes through it; `None` when the interface has no networks.
    pub fn find_by_oif(&self, oif: u32) -> (r: Option<Vec<Route>>)
        requires
            self.wf(),
        ensures
            match r {
                Some(v) => self.view().by_oif.contains_key(oif) && v@ == routes_through(
                    self.view(),
                    self.view().by_oif[oif],
                    oif,
                ),
                None => !self.view().by_oif.contains_key(oif),
            },
    {
        let nets = match self.by_oif.get(&oif) {
            Some(n) => n,
            None => {
                return None;
            },
        };
        let ghost t = self.view();
        let mut out: Vec<Route> = Vec::new();
        let mut i: usize = 0;
        while i < nets.len()
            invariant
                self.wf(),
                t == self.view(),
                t.by_oif.contains_key(oif),
                nets@ == t.by_oif[oif],
                0 <= i <= nets@.len(),
                out@ == routes_through(t, nets@.take(i as int), oif),
            decreases nets@.len() - i,
        {
            assert(nets@.take(i + 1).drop_last() =~= nets@.take(i as int));
            assert(nets@.take(i + 1).last() == nets@[i as int]);
            let ghost before = out@;
            match self.find(&nets[i]) {
                Some(set) => {
                    let ghost s0 = set@;
                    let mut j: usize = 0;
                    assert(s0.skip(0) =~= s0);
                    while j < set.len()
                        invariant
                            0 <= j <= set@.len(),
                            set@ == s0,
                            route_through(s0, oif) == route_through(s0.skip(j as int), oif),
                        ensures
                            j <= set@.len(),
                            set@ == s0,
                            route_through(s0, oif) == route_through(s0.skip(j as int), oif),
                            j < set@.len() ==> s0[j as int].if_index == Some(oif),
                        decreases set@.len() - j,
                    {
                        if set[j].if_index == Some(oif) {
                            break;
                        }
                        assert(s0.skip(j as int).drop_first() =~= s0.skip(j + 1));
                        j = j + 1;
                    }
                    if j < set.len() {
                        assert(s0.skip(j as int)[0] == s0[j as int]);
                        out.push(set[j]);
                        assert(out@ =~= before + seq![set@[j as int]]);
                    } else {
                        assert(s0.skip(j as int) =~= Seq::<Route>::empty());
                        assert(out@ =~= before + Seq::<Route>::empty());
                    }
                },
                None => {
                    assert(out@ =~= before + Seq::<Route>::empty());
                },
            }
            i = i + 1;
        }
        assert(nets@.take(nets@.len() as int) =~= nets@);
        Some(out)
    }

    /// Forgets the networks of an interface and takes out the most
    /// preferred route to each; returns those networks, or `None` when the
    /// interface has none.
    pub fn remove_by_oif(&mut self, oif: u32) -> (r: Option<Vec<PrefixedIpAddr>>)
        requires
            old(self).wf(),
        ensures
            final(self).wf(),
            final(self).view() == after_remove_by_oif(old(self).view(), oif).0,
            match r {
                Some(v) => after_remove_by_oif(old(self).view(), oif).1 == Some(v@),
                None => after_remove_by_oif(old(self).view(), oif).1 is None,
            },
    {
        let ghost t0 = self.view();
        let nets = match self.by_oif.remove(&oif) {
            Some(n) => n,
            None => {
                assert(self.view().by_oif =~= t0.by_oif);
                return None;
            },
        };
        let ghost t1 = self.view();
        assert(t1.by_oif =~= t0.by_oif.remove(oif));
        assert(t1 == (RouteTableView { by_oif: t0.by_oif.remove(oif), ..t0 }));
        assert(table_ok(t1));
        assert(remove_all(t1, nets@.take(0)) == t1) by {
            assert(nets@.take(0) =~= Seq::<PrefixedIpAddr>::empty());
        }
        let mut i: usize = 0;
        while i < nets.len()
            invariant
                self.wf(),
                0 <= i <= nets@.len(),
                self.view() == remove_all(t1, nets@.take(i as int)),
            decreases nets@.len() - i,
        {
            assert(nets@.take(i + 1).drop_last() =~= nets@.take(i as int));
            assert(nets@.take(i + 1).last() == nets@[i as int]);
            self.remove(&nets[i]);
            i = i + 1;
        }
        assert(nets@.take(nets@.len() as int) =~= nets@);
        Some(nets)
    }

    /// Empties the table.
    pub fn clear(&mut self)
        ensures
            final(self).wf(),
            final(self).view().v4 == Map::<PrefixedIpv4Addr, Seq<Route>>::empty(),
            final(self).view().v6 == Map::<PrefixedIpv6Addr, Seq<Route>>::empty(),
            final(self).view().by_oif == Map::<u32, Seq<PrefixedIpAddr>>::empty(),
    {
        self.v4.clear();
        self.v6.clear();
        self.by_oif.clear();
        assert(self.view().v4 =~= Map::<PrefixedIpv4Addr, Seq<Route>>::empty());
        assert(self.view().v6 =~= Map::<PrefixedIpv6Addr, Seq<Route>>::empty());
        assert(self.view().by_oif =~= Map::<u32, Seq<PrefixedIpAddr>>::empty());
    }
}

impl RouteTable {
    /// Every IPv4 route of the table, in no particular order.
    pub fn v4_routes(&self) -> (r: Vec<Route>)
        requires
            self.wf(),
        ensures
            forall|x: Route|
                r@.contains(x) <==> exists|k: PrefixedIpv4Addr|
                    self.view().v4.contains_key(k) && #[trigger] self.view().v4[k].contains(x),
    {
        let e = self.v4.entries();
        proof {
            lemma_map_of(e@);
        }
        let r = flatten_sets(e);
        assert forall|x: Route| r@.contains(x) <==> exists|k: PrefixedIpv4Addr|
            self.view().v4.contains_key(k) && #[trigger] self.view().v4[k].contains(x) by {
            if r@.contains(x) {
                let j = choose|j: int| 0 <= j < e@.len() && (#[trigger] e@[j]).1@.contains(x);
                assert(map_of(e@).contains_key(e@[j].0@));
                assert(self.view().v4[e@[j].0] == e@[j].1@);
            }
            if exists|k: PrefixedIpv4Addr| self.view().v4.contains_key(k) && #[trigger] self.view().v4[k].contains(x) {
                let k = choose|k: PrefixedIpv4Addr| self.view().v4.contains_key(k) && #[trigger] self.view().v4[k].contains(x);
                assert(map_of(e@).contains_key(k));
                let j = choose|j: int| 0 <= j < e@.len() && #[trigger] e@[j].0@ == k;
                assert(e@[j].1@.contains(x));
            }
        }
        r
    }

    /// Every IPv6 route of the table, in no particular order.
    pub fn v6_routes(&self) -> (r: Vec<Route>)
        requires
            self.wf(),
        ensures
            forall|x: Route|
                r@.contains(x) <==> exists|k: PrefixedIpv6Addr|
                    self.view().v6.contains_key(k) && #[trigger] self.view().v6[k].contains(x),
    {
        let e = self.v6.entries();
        proof {
            lemma_map_of(e@);
        }
        let r = flatten_sets(e);
        assert forall|x: Route| r@.contains(x) <==> exists|k: PrefixedIpv6Addr|
            self.view().v6.contains_key(k) && #[trigger] self.view().v6[k].contains(x) by {
            if r@.contains(x) {
                let j = choose|j: int| 0 <= j < e@.len() && (#[trigger] e@[j]).1@.contains(x);
                assert(map_of(e@).contains_key(e@[j].0@));
                assert(self.view().v6[e@[j].0] == e@[j].1@);
            }
            if exists|k: PrefixedIpv6Addr| self.view().v6.contains_key(k) && #[trigger] self.view().v6[k].contains(x) {
                let k = choose|k: PrefixedIpv6Addr| self.view().v6.contains_key(k) && #[trigger] self.view().v6[k].contains(x);
                assert(map_of(e@).contains_key(k));
                let j = choose|j: int| 0 <= j < e@.len() && #[trigger] e@[j].0@ == k;
                assert(e@[j].1@.contains(x));
            }
        }
        r
    }

    /// Every route of the table: the IPv4 routes, then the IPv6 routes.
    pub fn all_routes(&self) -> (r: Vec<Route>)
        requires
            self.wf(),
        ensures
            forall|x: Route|
                r@.contains(x) <==> (exists|k: PrefixedIpv4Addr|
                    self.view().v4.contains_key(k) && #[trigger] self.view().v4[k].contains(x)) || (
                exists|k: PrefixedIpv6Addr|
                    self.view().v6.contains_key(k) && #[trigger] self.view().v6[k].contains(x)),
    {
        let mut a = self.v4_routes();
        let b = self.v6_routes();
        let ghost a0 = a@;
        let ghost t = self.view();
        let mut i: usize = 0;
        while i < b.len()
            invariant
                0 <= i <= b@.len(),
                a@ == a0 + b@.take(i as int),
            decreases b@.len() - i,
        {
            a.push(b[i]);
            i = i + 1;
            assert(a@ =~= a0 + b@.take(i as int));
        }
        assert(b@.take(i as int) =~= b@);
        assert forall|x: Route| a@.contains(x) <==> (a0.contains(x) || b@.contains(x)) by {
            if a@.contains(x) {
                let m = choose|m: int| 0 <= m < a@.len() && a@[m] == x;
                if m < a0.len() {
                    assert(a0[m] == x);
                } else {
                    assert(b@[m - a0.len()] == x);
                }
            }
            if a0.contains(x) {
                let m = choose|m: int| 0 <= m < a0.len() && a0[m] == x;
                assert(a@[m] == x);
            }
            if b@.contains(x) {
                let m = choose|m: int| 0 <= m < b@.len() && b@[m] == x;
                assert(a@[a0.len() + m] == x);
            }
        }
        assert forall|x: Route| a@.contains(x) <==> (exists|k: PrefixedIpv4Addr|
            t.v4.contains_key(k) && #[trigger] t.v4[k].contains(x)) || (exists|k: PrefixedIpv6Addr|
            t.v6.contains_key(k) && #[trigger] t.v6[k].contains(x)) by {
            assert(a0.contains(x) <==> exists|k: PrefixedIpv4Addr|
                t.v4.contains_key(k) && #[trigger] t.v4[k].contains(x));
            assert(b@.contains(x) <==> exists|k: PrefixedIpv6Addr|
                t.v6.contains_key(k) && #[trigger] t.v6[k].contains(x));
        }
        a
    }
}

/// A route added to a network the table has no route to is the one taken
/// out next, and taking it out leaves the network without routes.
pub proof fn lemma_remove_undoes_insert(t: RouteTableView, r: Route)
    requires
        table_ok(t),
        r.if_index is Some,
        routes_to(t, net_of(r)) is None,
    ensures
        after_remove(after_insert(t, r), net_of(r)).1 == Some(r),
        routes_to(after_remove(after_insert(t, r), net_of(r)).0, net_of(r)) is None,
{
    assert(with_route(Seq::<Route>::empty(), r) == seq![r]);
    assert(seq![r].drop_first() =~= Seq::<Route>::empty());
}

/// After a route is added, the routes to its network hold a route of the
/// same rank, and the network is among those of the route's interface.
pub proof fn lemma_insert_reaches(t: RouteTableView, r: Route)
    requires
        table_ok(t),
        r.if_index is Some,
    ensures
        routes_to(after_insert(t, r), net_of(r)) is Some,
        exists|i: int|
            0 <= i < routes_to(after_insert(t, r), net_of(r)).unwrap().len() && rank(
                #[trigger] routes_to(after_insert(t, r), net_of(r)).unwrap()[i],
            ) == rank(r),
        after_insert(t, r).by_oif[r.if_index.unwrap()].contains(net_of(r)),
{
    let a = net_of(r);
    let old_set = match routes_to(t, a) {
        Some(s) => s,
        None => Seq::empty(),
    };
    lemma_with_route_has_rank(old_set, r);
    assert(ranked(old_set)) by {
        if routes_to(t, a) is None {
            assert(old_set =~= Seq::<Route>::empty());
        }
    }
    lemma_with_route(old_set, r);
    assert(routes_to(after_insert(t, r), a) == Some(with_route(old_set, r)));
    let w = with_route(old_set, r);
    let i = choose|i: int| 0 <= i < w.len() && rank(#[trigger] w[i]) == rank(r);
    assert(0 <= i < w.len() && rank(w[i]) == rank(r));
    assert(routes_to(after_insert(t, r), net_of(r)).unwrap()[i] == w[i]);
    let oif = r.if_index.unwrap();
    let old_nets = if t.by_oif.contains_key(oif) {
        t.by_oif[oif]
    } else {
        Seq::empty()
    };
    if !old_nets.contains(a) {
        assert(old_nets.push(a)[old_nets.len() as int] == a);
    }
}

proof fn lemma_with_route_has_rank(s: Seq<Route>, r: Route)
    ensures
        exists|i: int| 0 <= i < with_route(s, r).len() && rank(#[trigger] with_route(s, r)[i]) == rank(r),
    decreases s.len(),
{
    let w = with_route(s, r);
    if s.len() == 0 {
        assert(rank(w[0]) == rank(r));
    } else if rank(s[0]) == rank(r) {
        assert(rank(w[0]) == rank(r));
    } else if rank(s[0]) < rank(r) {
        assert(w[0] == r);
    } else {
        lemma_with_route_has_rank(s.drop_first(), r);
        let u = with_route(s.drop_first(), r);
        let i = choose|i: int| 0 <= i < u.len() && rank(#[trigger] u[i]) == rank(r);
        assert(w[i + 1] == u[i]);
    }
}

/// The invariant of the table's content: each set of routes is ranked and
/// holds routes through an interface; each set of networks holds each
/// network once.
pub open spec fn table_ok(t: RouteTableView) -> bool {
    &&& forall|k: PrefixedIpv4Addr| #[trigger]
        t.v4.contains_key(k) ==> ranked(t.v4[k]) && forall|i: int|
            0 <= i < t.v4[k].len() ==> (#[trigger] t.v4[k][i]).if_index is Some
    &&& forall|k: PrefixedIpv6Addr| #[trigger]
        t.v6.contains_key(k) ==> ranked(t.v6[k]) && forall|i: int|
            0 <= i < t.v6[k].len() ==> (#[trigger] t.v6[k][i]).if_index is Some
    &&& forall|o: u32| #[trigger] t.by_oif.contains_key(o) ==> t.by_oif[o].no_duplicates()
}

} // verus!
