//! Backup routes: for each interface, its gateway and the networks that can
//! be reached through it, so that a default route can be restored when the
//! one in use goes away.
use vstd::prelude::*;

use crate::ip::{PrefixedIpv4Addr, PrefixedIpv6Addr};

verus! {

broadcast use vstd::seq_lib::lemma_seq_contains_after_push;

/// A value that can key the backup table: copied freely and compared
/// exactly.
pub trait RouteKey: Copy {
    fn same(&self, other: &Self) -> (r: bool)
        ensures
            r == (*self == *other),
    ;
}

impl RouteKey for u32 {
    fn same(&self, other: &u32) -> (r: bool) {
        *self == *other
    }
}

impl RouteKey for PrefixedIpv4Addr {
    fn same(&self, other: &PrefixedIpv4Addr) -> (r: bool) {
        *self == *other
    }
}

impl RouteKey for PrefixedIpv6Addr {
    fn same(&self, other: &PrefixedIpv6Addr) -> (r: bool) {
        *self == *other
    }
}

/// The gateways by interface index, from a list in which each index occurs
/// at most once.
pub open spec fn gateway_map<I>(s: Seq<(u32, I)>) -> Map<u32, I>
    decreases s.len(),
{
    if s.len() == 0 {
        Map::empty()
    } else {
        gateway_map(s.drop_last()).insert(s.last().0, s.last().1)
    }
}

/// Each interface index occurs at most once.
pub open spec fn unique_ids<I>(s: Seq<(u32, I)>) -> bool {
    forall|i: int, j: int| 0 <= i < j < s.len() ==> #[trigger] s[i].0 != #[trigger] s[j].0
}

/// The links after recording that `nets` are reachable through `id`.
pub open spec fn links_after_insert<I>(links: Set<(u32, I)>, id: u32, nets: Seq<I>) -> Set<
    (u32, I),
> {
    links.union(Set::new(|p: (u32, I)| p.0 == id && nets.contains(p.1)))
}

/// The links after forgetting interface `id`.
pub open spec fn links_after_remove<I>(links: Set<(u32, I)>, id: u32) -> Set<(u32, I)> {
    links.filter(|p: (u32, I)| p.0 != id)
}

/// The interfaces through which `net` can be reached.
pub open spec fn outputs<I>(links: Set<(u32, I)>, net: I) -> Set<u32> {
    Set::new(|id: u32| links.contains((id, net)))
}

proof fn lemma_gateway_map<I>(s: Seq<(u32, I)>)
    requires
        unique_ids(s),
    ensures
        forall|j: int|
            0 <= j < s.len() ==> #[trigger] gateway_map(s).contains_key(s[j].0) && gateway_map(
                s,
            )[s[j].0] == s[j].1,
        forall|id: u32|
            #[trigger] gateway_map(s).contains_key(id) ==> exists|j: int|
                0 <= j < s.len() && #[trigger] s[j].0 == id,
    decreases s.len(),
{
    if s.len() > 0 {
        let t = s.drop_last();
        assert(unique_ids(t)) by {
            assert forall|i: int, j: int| 0 <= i < j < t.len() implies #[trigger] t[i].0
                != #[trigger] t[j].0 by {
                assert(t[i] == s[i] && t[j] == s[j]);
            }
        }
        lemma_gateway_map(t);
        assert forall|j: int| 0 <= j < s.len() implies #[trigger] gateway_map(s).contains_key(
            s[j].0,
        ) && gateway_map(s)[s[j].0] == s[j].1 by {
            if j < s.len() - 1 {
                assert(t[j] == s[j]);
                assert(gateway_map(t).contains_key(t[j].0));
                assert(s[j].0 != s[s.len() - 1].0);
            }
        }
        assert forall|id: u32| #[trigger] gateway_map(s).contains_key(id) implies exists|j: int|
            0 <= j < s.len() && #[trigger] s[j].0 == id by {
            if id != s.last().0 {
                assert(gateway_map(t).contains_key(id));
                let j = choose|j: int| 0 <= j < t.len() && #[trigger] t[j].0 == id;
                assert(s[j] == t[j]);
            } else {
                assert(s[s.len() - 1].0 == id);
            }
        }
    }
}

/// Two lists of unique indices with the same index-to-gateway pairs give
/// the same map.
proof fn lemma_gateway_map_eq<I>(s: Seq<(u32, I)>, m: Map<u32, I>)
    requires
        unique_ids(s),
        forall|j: int| 0 <= j < s.len() ==> #[trigger] m.contains_key(s[j].0) && m[s[j].0] == s[j].1,
        forall|id: u32| #[trigger] m.contains_key(id) ==> exists|j: int| 0 <= j < s.len() && #[trigger] s[j].0 == id,
    ensures
        gateway_map(s) == m,
{
    lemma_gateway_map(s);
    assert forall|id: u32| #[trigger] gateway_map(s).contains_key(id) == m.contains_key(id) by {
        if m.contains_key(id) {
            let j = choose|j: int| 0 <= j < s.len() && #[trigger] s[j].0 == id;
            assert(gateway_map(s).contains_key(s[j].0));
        }
        if gateway_map(s).contains_key(id) {
            let j = choose|j: int| 0 <= j < s.len() && #[trigger] s[j].0 == id;
            assert(m.contains_key(s[j].0));
        }
    }
    assert forall|id: u32| #[trigger] gateway_map(s).contains_key(id) implies gateway_map(s)[id]
        == m[id] by {
        let j = choose|j: int| 0 <= j < s.len() && #[trigger] s[j].0 == id;
        assert(gateway_map(s)[s[j].0] == s[j].1);
    }
    assert(gateway_map(s) =~= m);
}

/// The entries of `s` whose interface is not `id`, in order.
pub open spec fn without_id<I>(s: Seq<(u32, I)>, id: u32) -> Seq<(u32, I)>
    decreases s.len(),
{
    if s.len() == 0 {
        Seq::empty()
    } else {
        let rest = without_id(s.drop_last(), id);
        if s.last().0 == id {
            rest
        } else {
            rest.push(s.last())
        }
    }
}

proof fn lemma_without_id_step<I>(s: Seq<(u32, I)>, k: int, id: u32)
    requires
        0 <= k < s.len(),
    ensures
        without_id(s.take(k + 1), id) == (if s[k].0 == id {
            without_id(s.take(k), id)
        } else {
            without_id(s.take(k), id).push(s[k])
        }),
{
    assert(s.take(k + 1).drop_last() =~= s.take(k));
}

proof fn lemma_without_id<I>(s: Seq<(u32, I)>, id: u32)
    ensures
        forall|x: (u32, I)| #[trigger] without_id(s, id).contains(x) <==> (s.contains(x) && x.0 != id),
        s.no_duplicates() ==> without_id(s, id).no_duplicates(),
        unique_ids(s) ==> unique_ids(without_id(s, id)),
        unique_ids(s) ==> gateway_map(without_id(s, id)) == gateway_map(s).remove(id),
    decreases s.len(),
{
    if s.len() > 0 {
        let t = s.drop_last();
        let p = s.last();
        let w = without_id(t, id);
        lemma_without_id(t, id);
        assert(s == t.push(p));
        assert forall|x: (u32, I)| #[trigger] without_id(s, id).contains(x) <==> (s.contains(x) && x.0 != id) by {
            if p.0 != id {
                assert(without_id(s, id) == w.push(p));
            }
        }
        if s.no_duplicates() && p.0 != id {
            assert(!t.contains(p)) by {
                if t.contains(p) {
                    let j = choose|j: int| 0 <= j < t.len() && t[j] == p;
                    assert(s[j] == s[s.len() - 1]);
                }
            }
            assert(t.no_duplicates()) by {
                assert forall|a: int, b: int| 0 <= a < b < t.len() implies t[a] != t[b] by {
                    assert(t[a] == s[a] && t[b] == s[b]);
                }
            }
            let u = w.push(p);
            assert(u.no_duplicates()) by {
                assert forall|a: int, b: int| 0 <= a < b < u.len() implies u[a] != u[b] by {
                    if b == w.len() {
                        assert(u[a] == w[a]);
                        assert(w.contains(w[a]));
                    } else {
                        assert(u[a] == w[a] && u[b] == w[b]);
                    }
                }
            }
        } else if s.no_duplicates() {
            assert(t.no_duplicates()) by {
                assert forall|a: int, b: int| 0 <= a < b < t.len() implies t[a] != t[b] by {
                    assert(t[a] == s[a] && t[b] == s[b]);
                }
            }
        }
        if unique_ids(s) {
            assert(unique_ids(t)) by {
                assert forall|a: int, b: int| 0 <= a < b < t.len() implies #[trigger] t[a].0
                    != #[trigger] t[b].0 by {
                    assert(t[a] == s[a] && t[b] == s[b]);
                }
            }
            if p.0 != id {
                let u = w.push(p);
                assert(unique_ids(u)) by {
                    assert forall|a: int, b: int| 0 <= a < b < u.len() implies #[trigger] u[a].0
                        != #[trigger] u[b].0 by {
                        if b == w.len() {
                            assert(u[a] == w[a]);
                            assert(w.contains(w[a]));
                            assert(t.contains(w[a]));
                            let j = choose|j: int| 0 <= j < t.len() && t[j] == w[a];
                            assert(s[j].0 != s[s.len() - 1].0);
                        } else {
                            assert(u[a] == w[a] && u[b] == w[b]);
                        }
                    }
                }
                assert(u.drop_last() =~= w);
                assert(gateway_map(u) == gateway_map(w).insert(p.0, p.1));
                assert(gateway_map(s) == gateway_map(t).insert(p.0, p.1));
                assert(gateway_map(u) =~= gateway_map(s).remove(id));
            } else {
                assert(gateway_map(w) =~= gateway_map(s).remove(id));
            }
        }
    } else {
        assert(gateway_map(without_id(s, id)) =~= gateway_map(s).remove(id));
    }
}

/// For each interface, its gateway and the networks reachable through it.
pub struct BackupRouteTable<I> {
    gateways: Vec<(u32, I)>,
    links: Vec<(u32, I)>,
}

impl<I: RouteKey> BackupRouteTable<I> {
    /// The gateway of each interface.
    pub closed spec fn gateways(&self) -> Map<u32, I> {
        gateway_map(self.gateways@)
    }

    /// The (interface, network) pairs recorded.
    pub closed spec fn links(&self) -> Set<(u32, I)> {
        self.links@.to_set()
    }

    /// Each interface has one gateway entry, and each pair is recorded once.
    pub closed spec fn wf(&self) -> bool {
        unique_ids(self.gateways@) && self.links@.no_duplicates()
    }

    /// An empty table.
    pub fn new() -> (r: Self)
        ensures
            r.wf(),
            r.gateways() == Map::<u32, I>::empty(),
            r.links() == Set::<(u32, I)>::empty(),
    {
        let r = BackupRouteTable { gateways: Vec::new(), links: Vec::new() };
        assert(r.links@.to_set() =~= Set::<(u32, I)>::empty());
        r
    }

    /// Records `gateway` as the gateway of interface `if_idx` and `nets` as
    /// reachable through it.
    pub fn insert(&mut self, if_idx: u32, gateway: I, nets: Vec<I>)
        requires
            old(self).wf(),
        ensures
            final(self).wf(),
            final(self).gateways() == old(self).gateways().insert(if_idx, gateway),
            final(self).links() == links_after_insert(old(self).links(), if_idx, nets@),
    {
        let ghost g0 = self.gateways@;
        let ghost l0 = self.links@;
        proof {
            lemma_gateway_map(g0);
        }
        // The gateway entry of the interface is replaced, or appended.
        let mut i: usize = 0;
        let mut found = false;
        while i < self.gateways.len()
            invariant_except_break
                0 <= i <= self.gateways@.len(),
                self.gateways@ == g0,
                self.links@ == l0,
                !found,
                forall|j: int| 0 <= j < i ==> #[trigger] g0[j].0 != if_idx,
            ensures
                self.links@ == l0,
                found ==> (0 <= i < g0.len() && g0[i as int].0 == if_idx
                    && self.gateways@ == g0.update(i as int, (if_idx, gateway))),
                !found ==> (self.gateways@ == g0 && forall|j: int|
                    0 <= j < g0.len() ==> #[trigger] g0[j].0 != if_idx),
            decreases self.gateways@.len() - i,
        {
            if self.gateways[i].0 == if_idx {
                self.gateways.set(i, (if_idx, gateway));
                found = true;
                break;
            }
            i = i + 1;
        }
        if !found {
            self.gateways.push((if_idx, gateway));
        }
        proof {
            let g1 = self.gateways@;
            let m = gateway_map(g0).insert(if_idx, gateway);
            assert(unique_ids(g1)) by {
                assert forall|a: int, b: int| 0 <= a < b < g1.len() implies #[trigger] g1[a].0
                    != #[trigger] g1[b].0 by {
                    if found {
                        if a != i && b != i {
                            assert(g1[a] == g0[a] && g1[b] == g0[b]);
                        } else if a == i {
                            assert(g1[b] == g0[b]);
                            assert(g0[b].0 != g0[a].0);
                        } else {
                            assert(g1[a] == g0[a]);
                            assert(g0[b].0 != g0[a].0);
                        }
                    } else {
                        if b < g0.len() {
                            assert(g1[a] == g0[a] && g1[b] == g0[b]);
                        } else {
                            assert(g1[a] == g0[a]);
                        }
                    }
                }
            }
            assert forall|j: int| 0 <= j < g1.len() implies #[trigger] m.contains_key(g1[j].0)
                && m[g1[j].0] == g1[j].1 by {
                if found {
                    if j != i {
                        assert(g1[j] == g0[j]);
                        assert(gateway_map(g0).contains_key(g0[j].0));
                    }
                } else if j < g0.len() {
                    assert(g1[j] == g0[j]);
                    assert(gateway_map(g0).contains_key(g0[j].0));
                }
            }
            assert forall|id: u32| #[trigger] m.contains_key(id) implies exists|j: int|
                0 <= j < g1.len() && #[trigger] g1[j].0 == id by {
                if id == if_idx {
                    if found {
                        assert(g1[i as int].0 == id);
                    } else {
                        assert(g1[g0.len() as int].0 == id);
                    }
                } else {
                    let j = choose|j: int| 0 <= j < g0.len() && #[trigger] g0[j].0 == id;
                    if found {
                        assert(g1[j] == g0[j]);
                    } else {
                        assert(g1[j] == g0[j]);
                    }
                }
            }
            lemma_gateway_map_eq(g1, m);
        }
        // Each network is linked to the interface, once.
        let ghost g1 = self.gateways@;
        let mut k: usize = 0;
        while k < nets.len()
            invariant
                0 <= k <= nets@.len(),
                self.gateways@ == g1,
                unique_ids(g1),
                self.links@.no_duplicates(),
                l0.no_duplicates(),
                self.links@.to_set() == links_after_insert(l0.to_set(), if_idx, nets@.take(k as int)),
            decreases nets@.len() - k,
        {
            let n = nets[k];
            let mut present = false;
            let mut j: usize = 0;
            while j < self.links.len()
                invariant
                    0 <= j <= self.links@.len(),
                    present == exists|t: int| 0 <= t < j && #[trigger] self.links@[t] == (if_idx, n),
                decreases self.links@.len() - j,
            {
                let p = self.links[j];
                let same_id = p.0 == if_idx;
                let same_net = p.1.same(&n);
                if same_id && same_net {
                    present = true;
                }
                j = j + 1;
            }
            let ghost before = self.links@;
            if !present {
                self.links.push((if_idx, n));
            }
            proof {
                let after = self.links@;
                assert(nets@.take(k as int + 1) =~= nets@.take(k as int).push(n));
                if !present {
                    assert(after.no_duplicates()) by {
                        assert forall|a: int, b: int| 0 <= a < b < after.len() implies after[a]
                            != after[b] by {
                            if b == before.len() {
                                assert(after[a] == before[a]);
                                assert(!(before[a] == (if_idx, n)));
                            } else {
                                assert(after[a] == before[a] && after[b] == before[b]);
                            }
                        }
                    }
                    assert(after.to_set() =~= before.to_set().insert((if_idx, n)));
                } else {
                    let t = choose|t: int| 0 <= t < before.len() && #[trigger] before[t] == (if_idx, n);
                    assert(before.to_set().contains((if_idx, n)));
                }
                assert(links_after_insert(l0.to_set(), if_idx, nets@.take(k as int + 1)) =~= links_after_insert(
                    l0.to_set(),
                    if_idx,
                    nets@.take(k as int),
                ).insert((if_idx, n)));
            }
            k = k + 1;
        }
        proof {
            assert(nets@.take(nets@.len() as int) =~= nets@);
        }
    }

    /// Forgets interface `if_idx`: its gateway, and every network reached
    /// through it.
    pub fn remove(&mut self, if_idx: u32)
        requires
            old(self).wf(),
        ensures
            final(self).wf(),
            final(self).gateways() == old(self).gateways().remove(if_idx),
            final(self).links() == links_after_remove(old(self).links(), if_idx),
    {
        let ghost g0 = self.gateways@;
        let ghost l0 = self.links@;
        let gateways = Self::entries_without(&self.gateways, if_idx);
        let links = Self::entries_without(&self.links, if_idx);
        proof {
            lemma_without_id(g0, if_idx);
            lemma_without_id(l0, if_idx);
            assert(links@.to_set() =~= links_after_remove(l0.to_set(), if_idx));
        }
        self.gateways = gateways;
        self.links = links;
    }

    /// The entries whose interface is not `id`, in order.
    fn entries_without(s: &Vec<(u32, I)>, id: u32) -> (r: Vec<(u32, I)>)
        ensures
            r@ == without_id(s@, id),
    {
        let mut out: Vec<(u32, I)> = Vec::new();
        let mut k: usize = 0;
        while k < s.len()
            invariant
                0 <= k <= s@.len(),
                out@ == without_id(s@.take(k as int), id),
            decreases s@.len() - k,
        {
            let p = s[k];
            proof {
                lemma_without_id_step(s@, k as int, id);
            }
            if p.0 != id {
                out.push(p);
            }
            k = k + 1;
        }
        proof {
            assert(s@.take(s@.len() as int) =~= s@);
        }
        out
    }

    /// Each gateway with its interface, once per interface.
    pub fn available_gateways(&self) -> (r: Vec<(I, u32)>)
        requires
            self.wf(),
        ensures
            r@.len() == self.gateways().dom().len(),
            r@.no_duplicates(),
            forall|p: (I, u32)|
                r@.contains(p) <==> (self.gateways().contains_key(p.1) && self.gateways()[p.1]
                    == p.0),
    {
        let ghost g = self.gateways@;
        proof {
            lemma_gateway_map(g);
        }
        let mut r: Vec<(I, u32)> = Vec::new();
        let mut i: usize = 0;
        while i < self.gateways.len()
            invariant
                0 <= i <= g.len(),
                self.gateways@ == g,
                unique_ids(g),
                r@.len() == i,
                forall|j: int| 0 <= j < i ==> #[trigger] r@[j] == (g[j].1, g[j].0),
            decreases g.len() - i,
        {
            let p = self.gateways[i];
            r.push((p.1, p.0));
            i = i + 1;
        }
        proof {
            let m = gateway_map(g);
            assert(r@.no_duplicates()) by {
                assert forall|a: int, b: int| 0 <= a < b < r@.len() implies r@[a] != r@[b] by {
                    assert(g[a].0 != g[b].0);
                }
            }
            assert forall|p: (I, u32)| r@.contains(p) <==> (m.contains_key(p.1) && m[p.1] == p.0) by {
                if r@.contains(p) {
                    let j = choose|j: int| 0 <= j < r@.len() && r@[j] == p;
                    assert(r@[j] == (g[j].1, g[j].0));
                }
                if m.contains_key(p.1) && m[p.1] == p.0 {
                    let j = choose|j: int| 0 <= j < g.len() && #[trigger] g[j].0 == p.1;
                    assert(m[g[j].0] == g[j].1);
                    assert(r@[j] == p);
                }
            }
            lemma_dom_len(g);
        }
        r
    }

    /// The interfaces through which `net` can be reached, if any.
    pub fn net_outputs(&self, net: &I) -> (r: Option<Vec<u32>>)
        requires
            self.wf(),
        ensures
            r is None <==> outputs(self.links(), *net) == Set::<u32>::empty(),
            r matches Some(v) ==> v@.no_duplicates() && v@.to_set() == outputs(self.links(), *net),
    {
        let ghost l = self.links@;
        let mut r: Vec<u32> = Vec::new();
        let mut i: usize = 0;
        while i < self.links.len()
            invariant
                0 <= i <= l.len(),
                self.links@ == l,
                l.no_duplicates(),
                r@.no_duplicates(),
                r@.to_set() == outputs(l.take(i as int).to_set(), *net),
            decreases l.len() - i,
        {
            let p = self.links[i];
            let ghost before = r@;
            if p.1.same(net) {
                proof {
                    assert forall|t: int| 0 <= t < before.len() implies before[t] != p.0 by {
                        assert(before.to_set().contains(before[t]));
                        assert(l.take(i as int).to_set().contains((before[t], *net)));
                        let s = choose|s: int| 0 <= s < i && #[trigger] l.take(i as int)[s] == (before[t], *net);
                        assert(l[s] != l[i as int]);
                    }
                }
                r.push(p.0);
            }
            proof {
                assert(l.take(i as int + 1) =~= l.take(i as int).push(p));
                assert(l.take(i as int + 1).to_set() =~= l.take(i as int).to_set().insert(p));
                if p.1 == *net {
                    assert(r@.to_set() =~= before.to_set().insert(p.0));
                    assert(outputs(l.take(i as int + 1).to_set(), *net) =~= outputs(l.take(i as int).to_set(), *net).insert(p.0));
                } else {
                    assert(outputs(l.take(i as int + 1).to_set(), *net) =~= outputs(l.take(i as int).to_set(), *net));
                }
            }
            i = i + 1;
        }
        proof {
            assert(l.take(l.len() as int) =~= l);
        }
        if r.len() == 0 {
            proof {
                assert(r@.to_set() =~= Set::<u32>::empty());
            }
            None
        } else {
            proof {
                assert(r@.to_set().contains(r@[0]));
            }
            Some(r)
        }
    }
}

proof fn lemma_dom_len<I>(s: Seq<(u32, I)>)
    requires
        unique_ids(s),
    ensures
        gateway_map(s).dom().len() == s.len(),
        gateway_map(s).dom().finite(),
    decreases s.len(),
{
    if s.len() > 0 {
        let t = s.drop_last();
        assert(unique_ids(t)) by {
            assert forall|i: int, j: int| 0 <= i < j < t.len() implies #[trigger] t[i].0
                != #[trigger] t[j].0 by {
                assert(t[i] == s[i] && t[j] == s[j]);
            }
        }
        lemma_dom_len(t);
        lemma_gateway_map(t);
        if gateway_map(t).contains_key(s.last().0) {
            let j = choose|j: int| 0 <= j < t.len() && #[trigger] t[j].0 == s.last().0;
            assert(s[j].0 != s[s.len() - 1].0);
        }
    }
}

/// Forgetting an interface that was just recorded, and that the table did
/// not know before, leaves the table as it was.
pub proof fn lemma_remove_undoes_insert<I>(
    gateways: Map<u32, I>,
    links: Set<(u32, I)>,
    id: u32,
    gateway: I,
    nets: Seq<I>,
)
    requires
        !gateways.contains_key(id),
        forall|n: I| !links.contains((id, n)),
    ensures
        gateways.insert(id, gateway).remove(id) == gateways,
        links_after_remove(links_after_insert(links, id, nets), id) == links,
{
    assert(gateways.insert(id, gateway).remove(id) =~= gateways);
    assert forall|p: (u32, I)| links.contains(p) implies p.0 != id by {
        if p.0 == id {
            assert(p == (id, p.1));
        }
    }
    assert(links_after_remove(links_after_insert(links, id, nets), id) =~= links);
}

/// After recording `nets` through `id`, each of them can be reached
/// through `id`, and nothing else changes for other networks.
pub proof fn lemma_outputs_after_insert<I>(links: Set<(u32, I)>, id: u32, nets: Seq<I>, net: I)
    ensures
        outputs(links_after_insert(links, id, nets), net) == (if nets.contains(net) {
            outputs(links, net).insert(id)
        } else {
            outputs(links, net)
        }),
{
    assert(outputs(links_after_insert(links, id, nets), net) =~= (if nets.contains(net) {
        outputs(links, net).insert(id)
    } else {
        outputs(links, net)
    }));
}

/// After forgetting `id`, no network claims it any more, and every other
/// interface keeps its networks.
pub proof fn lemma_outputs_after_remove<I>(links: Set<(u32, I)>, id: u32, net: I)
    ensures
        outputs(links_after_remove(links, id), net) == outputs(links, net).remove(id),
{
    assert(outputs(links_after_remove(links, id), net) =~= outputs(links, net).remove(id));
}

} // verus!
