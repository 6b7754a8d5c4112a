//! The table of known interfaces: by name, with a two-way mapping between
//! interface index and name, and indices by type, parent and state.
use vstd::prelude::*;

use crate::assoc::{AssocVec, KeyEq, distinct_keys, lemma_map_of, map_of};
use crate::interface::{InterfaceInfo, InterfaceType};
use crate::ip::{PrefixedIpv4Addr, PrefixedIpv6Addr};
use crate::mac::MacAddr;
use crate::state::ConnectionState;
use crate::status::opt_view;
use crate::text::{copy_string, str_eq};

verus! {

/// The plain contents of an `InterfaceInfo`.
pub struct InfoView {
    pub id: u32,
    pub name: Seq<char>,
    pub state: ConnectionState,
    pub interface_type: InterfaceType,
    pub mac_addr: Option<MacAddr>,
    pub ipv4_addrs: Seq<PrefixedIpv4Addr>,
    pub ipv6_addrs: Seq<PrefixedIpv6Addr>,
    pub gateway_ipv4: Option<PrefixedIpv4Addr>,
    pub gateway_ipv6: Option<PrefixedIpv6Addr>,
    pub dhcpv4_enabled: bool,
    pub slaac_enabled: bool,
    pub parent: Option<Seq<char>>,
}

/// The plain contents of an `InterfaceInfo`.
pub open spec fn info_view(i: InterfaceInfo) -> InfoView {
    InfoView {
        id: i.id,
        name: i.name@,
        state: i.state,
        interface_type: i.interface_type,
        mac_addr: i.mac_addr,
        ipv4_addrs: i.ipv4_addrs@,
        ipv6_addrs: i.ipv6_addrs@,
        gateway_ipv4: i.gateway_ipv4,
        gateway_ipv6: i.gateway_ipv6,
        dhcpv4_enabled: i.dhcpv4_enabled,
        slaac_enabled: i.slaac_enabled,
        parent: opt_view(i.parent),
    }
}

fn copy_vec<T: Copy>(v: &Vec<T>) -> (r: Vec<T>)
    ensures
        r@ == v@,
{
    let mut out: Vec<T> = Vec::new();
    let mut i: usize = 0;
    while i < v.len()
        invariant
            0 <= i <= v@.len(),
            out@ == v@.take(i as int),
        decreases v@.len() - i,
    {
        out.push(v[i]);
        i = i + 1;
        assert(out@ =~= v@.take(i as int));
    }
    assert(v@.take(v@.len() as int) =~= v@);
    out
}

/// A copy of an interface's information.
pub fn copy_info(i: &InterfaceInfo) -> (r: InterfaceInfo)
    ensures
        info_view(r) == info_view(*i),
{
    InterfaceInfo {
        id: i.id,
        name: copy_string(&i.name),
        state: i.state,
        interface_type: i.interface_type,
        mac_addr: i.mac_addr,
        ipv4_addrs: copy_vec(&i.ipv4_addrs),
        ipv6_addrs: copy_vec(&i.ipv6_addrs),
        gateway_ipv4: i.gateway_ipv4,
        gateway_ipv6: i.gateway_ipv6,
        dhcpv4_enabled: i.dhcpv4_enabled,
        slaac_enabled: i.slaac_enabled,
        parent: match &i.parent {
            Some(p) => Some(copy_string(p)),
            None => None,
        },
    }
}

/// The contents of an interface table.
pub struct TableView {
    pub interfaces: Map<Seq<char>, InfoView>,
    pub index_to_name: Map<u32, Seq<char>>,
    pub name_to_index: Map<Seq<char>, u32>,
    pub by_type: Set<(InterfaceType, Seq<char>)>,
    pub by_parent: Set<(Seq<char>, Seq<char>)>,
    pub by_state: Set<(ConnectionState, Seq<char>)>,
}

/// The table after inserting an interface: its entry replaced; a stale
/// mapping of its index to another name, or of its name to another index,
/// dropped; its index, type, parent and state recorded.
pub open spec fn after_insert(v: TableView, info: InfoView) -> TableView {
    let name = info.name;
    let index = info.id;
    let n2i = if v.index_to_name.contains_key(index) && v.index_to_name[index] != name {
        v.name_to_index.remove(v.index_to_name[index])
    } else {
        v.name_to_index
    };
    let i2n = if n2i.contains_key(name) && n2i[name] != index {
        v.index_to_name.remove(n2i[name])
    } else {
        v.index_to_name
    };
    TableView {
        interfaces: v.interfaces.insert(name, info),
        index_to_name: i2n.insert(index, name),
        name_to_index: n2i.insert(name, index),
        by_type: v.by_type.insert((info.interface_type, name)),
        by_parent: match info.parent {
            Some(p) => v.by_parent.insert((p, name)),
            None => v.by_parent,
        },
        by_state: v.by_state.insert((info.state, name)),
    }
}

/// The table after removing the interface named `name`, if it is there:
/// its entry, its index mappings and its type, parent and state records.
pub open spec fn after_remove(v: TableView, name: Seq<char>) -> TableView {
    if !v.interfaces.contains_key(name) {
        v
    } else {
        let info = v.interfaces[name];
        TableView {
            interfaces: v.interfaces.remove(name),
            index_to_name: v.index_to_name.remove(info.id),
            name_to_index: v.name_to_index.remove(name),
            by_type: v.by_type.remove((info.interface_type, name)),
            by_parent: match info.parent {
                Some(p) => v.by_parent.remove((p, name)),
                None => v.by_parent,
            },
            by_state: v.by_state.remove((info.state, name)),
        }
    }
}

/// The index-to-name and name-to-index mappings are inverse to each other.
pub open spec fn indices_agree(v: TableView) -> bool {
    &&& forall|i: u32| #[trigger]
        v.index_to_name.contains_key(i) ==> v.name_to_index.contains_key(v.index_to_name[i])
            && v.name_to_index[v.index_to_name[i]] == i
    &&& forall|n: Seq<char>| #[trigger]
        v.name_to_index.contains_key(n) ==> v.index_to_name.contains_key(v.name_to_index[n])
            && v.index_to_name[v.name_to_index[n]] == n
}

/// The names of the interfaces recorded under a key of an index, that are
/// still in the table.
pub open spec fn listed<K>(index: Set<(K, Seq<char>)>, key: K, interfaces: Map<Seq<char>, InfoView>) -> Set<
    Seq<char>,
> {
    Set::new(|n: Seq<char>| index.contains((key, n)) && interfaces.contains_key(n))
}

/// Unified interface table managing all interface data and indices.
pub struct InterfaceTable {
    interfaces: AssocVec<String, InterfaceInfo>,
    index_to_name: AssocVec<u32, String>,
    name_to_index: AssocVec<String, u32>,
    by_type: AssocVec<(InterfaceType, String), ()>,
    by_parent: AssocVec<(String, String), ()>,
    by_state: AssocVec<(ConnectionState, String), ()>,
}

impl InterfaceTable {
    /// The contents of the table.
    pub closed spec fn view(&self) -> TableView {
        TableView {
            interfaces: self.interfaces.map().map_values(|i: InterfaceInfo| info_view(i)),
            index_to_name: self.index_to_name.map().map_values(|s: String| s@),
            name_to_index: self.name_to_index.map(),
            by_type: self.by_type.map().dom(),
            by_parent: self.by_parent.map().dom(),
            by_state: self.by_state.map().dom(),
        }
    }

    /// The table is well formed: each of its maps has distinct keys, and an
    /// interface is stored under its own name.
    pub closed spec fn wf(&self) -> bool {
        &&& self.interfaces.wf()
        &&& self.index_to_name.wf()
        &&& self.name_to_index.wf()
        &&& self.by_type.wf()
        &&& self.by_parent.wf()
        &&& self.by_state.wf()
        &&& forall|n: Seq<char>| #[trigger]
            self.interfaces.map().contains_key(n) ==> self.interfaces.map()[n].name@ == n
    }

    /// An empty table.
    pub fn new() -> (r: InterfaceTable)
        ensures
            r.wf(),
            r.view().interfaces == Map::<Seq<char>, InfoView>::empty(),
            r.view().index_to_name == Map::<u32, Seq<char>>::empty(),
            r.view().name_to_index == Map::<Seq<char>, u32>::empty(),
            r.view().by_type == Set::<(InterfaceType, Seq<char>)>::empty(),
            r.view().by_parent == Set::<(Seq<char>, Seq<char>)>::empty(),
            r.view().by_state == Set::<(ConnectionState, Seq<char>)>::empty(),
    {
        let r = InterfaceTable {
            interfaces: AssocVec::new(),
            index_to_name: AssocVec::new(),
            name_to_index: AssocVec::new(),
            by_type: AssocVec::new(),
            by_parent: AssocVec::new(),
            by_state: AssocVec::new(),
        };
        assert(r.view().interfaces =~= Map::<Seq<char>, InfoView>::empty());
        assert(r.view().index_to_name =~= Map::<u32, Seq<char>>::empty());
        assert(r.view().by_type =~= Set::<(InterfaceType, Seq<char>)>::empty());
        assert(r.view().by_parent =~= Set::<(Seq<char>, Seq<char>)>::empty());
        assert(r.view().by_state =~= Set::<(ConnectionState, Seq<char>)>::empty());
        r
    }

    /// Inserts an interface, updating all indices.
    pub fn insert(&mut self, info: InterfaceInfo)
        requires
            old(self).wf(),
        ensures
            final(self).wf(),
            final(self).view() == after_insert(old(self).view(), info_view(info)),
    {
        let ghost v0 = self.view();
        let ghost iv = info_view(info);
        let name = copy_string(&info.name);
        let index = info.id;
        let itype = info.interface_type;
        let state = info.state;
        let parent: Option<String> = match &info.parent {
            Some(p) => Some(copy_string(p)),
            None => None,
        };
        self.interfaces.insert(copy_string(&name), info);
        let stale_name: Option<String> = match self.index_to_name.get(&index) {
            Some(old_name) => if !str_eq(old_name.as_str(), name.as_str()) {
                Some(copy_string(old_name))
            } else {
                None
            },
            None => None,
        };
        match &stale_name {
            Some(n) => {
                self.name_to_index.remove(n);
            },
            None => {},
        }
        let stale_index: Option<u32> = match self.name_to_index.get(&name) {
            Some(old_index) => if *old_index != index {
                Some(*old_index)
            } else {
                None
            },
            None => None,
        };
        match stale_index {
            Some(i) => {
                self.index_to_name.remove(&i);
            },
            None => {},
        }
        self.index_to_name.insert(index, copy_string(&name));
        self.name_to_index.insert(copy_string(&name), index);
        self.by_type.insert((itype, copy_string(&name)), ());
        match parent {
            Some(p) => {
                self.by_parent.insert((p, copy_string(&name)), ());
            },
            None => {},
        }
        self.by_state.insert((state, name), ());
        proof {
            let v1 = self.view();
            let v2 = after_insert(v0, iv);
            assert(v1.interfaces =~= v2.interfaces);
            assert(v1.index_to_name =~= v2.index_to_name);
            assert(v1.name_to_index =~= v2.name_to_index);
            assert(v1.by_type =~= v2.by_type);
            assert(v1.by_parent =~= v2.by_parent);
            assert(v1.by_state =~= v2.by_state);
        }
    }

    /// Removes an interface by name, cleaning up all indices; returns it.
    pub fn remove(&mut self, name: &str) -> (r: Option<InterfaceInfo>)
        requires
            old(self).wf(),
        ensures
            final(self).wf(),
            final(self).view() == after_remove(old(self).view(), name@),
            match r {
                Some(info) => old(self).view().interfaces.contains_key(name@) && info_view(info)
                    == old(self).view().interfaces[name@],
                None => !old(self).view().interfaces.contains_key(name@),
            },
    {
        let ghost v0 = self.view();
        let key = name.to_owned();
        let info = match self.interfaces.remove(&key) {
            Some(i) => i,
            None => {
                proof {
                    assert(self.view().interfaces =~= v0.interfaces);
                    assert(!v0.interfaces.contains_key(name@));
                }
                return None;
            },
        };
        self.index_to_name.remove(&info.id);
        self.name_to_index.remove(&key);
        self.by_type.remove(&(info.interface_type, copy_string(&key)));
        match &info.parent {
            Some(p) => {
                self.by_parent.remove(&(copy_string(p), copy_string(&key)));
            },
            None => {},
        }
        self.by_state.remove(&(info.state, key));
        proof {
            let v1 = self.view();
            let v2 = after_remove(v0, name@);
            assert(v1.interfaces =~= v2.interfaces);
            assert(v1.index_to_name =~= v2.index_to_name);
            assert(v1.name_to_index =~= v2.name_to_index);
            assert(v1.by_type =~= v2.by_type);
            assert(v1.by_parent =~= v2.by_parent);
            assert(v1.by_state =~= v2.by_state);
        }
        Some(info)
    }

    /// Replaces an interface: removes the old entry, inserts the new one;
    /// returns the old one.
    pub fn update(&mut self, info: InterfaceInfo) -> (r: Option<InterfaceInfo>)
        requires
            old(self).wf(),
        ensures
            final(self).wf(),
            final(self).view() == after_insert(
                after_remove(old(self).view(), info.name@),
                info_view(info),
            ),
            match r {
                Some(o) => old(self).view().interfaces.contains_key(info.name@) && info_view(o)
                    == old(self).view().interfaces[info.name@],
                None => !old(self).view().interfaces.contains_key(info.name@),
            },
    {
        let name = copy_string(&info.name);
        let old = self.remove(name.as_str());
        self.insert(info);
        old
    }

    /// The interface with the given name.
    pub fn get(&self, name: &str) -> (r: Option<&InterfaceInfo>)
        requires
            self.wf(),
        ensures
            match r {
                Some(i) => self.view().interfaces.contains_key(name@) && info_view(*i)
                    == self.view().interfaces[name@],
                None => !self.view().interfaces.contains_key(name@),
            },
    {
        let key = name.to_owned();
        self.interfaces.get(&key)
    }

    /// The interface with the given index.
    pub fn get_by_index(&self, index: u32) -> (r: Option<&InterfaceInfo>)
        requires
            self.wf(),
        ensures
            match r {
                Some(i) => self.view().index_to_name.contains_key(index)
                    && self.view().interfaces.contains_key(self.view().index_to_name[index])
                    && info_view(*i) == self.view().interfaces[self.view().index_to_name[index]],
                None => !self.view().index_to_name.contains_key(index)
                    || !self.view().interfaces.contains_key(self.view().index_to_name[index]),
            },
    {
        match self.index_to_name.get(&index) {
            Some(name) => self.interfaces.get(name),
            None => None,
        }
    }

    /// The index of the interface with the given name.
    pub fn get_index(&self, name: &str) -> (r: Option<u32>)
        requires
            self.wf(),
        ensures
            match r {
                Some(i) => self.view().name_to_index.contains_key(name@)
                    && self.view().name_to_index[name@] == i,
                None => !self.view().name_to_index.contains_key(name@),
            },
    {
        let key = name.to_owned();
        match self.name_to_index.get(&key) {
            Some(i) => Some(*i),
            None => None,
        }
    }

    /// Whether an interface with the given name exists.
    pub fn contains(&self, name: &str) -> (r: bool)
        requires
            self.wf(),
        ensures
            r == self.view().interfaces.contains_key(name@),
    {
        let key = name.to_owned();
        self.interfaces.contains_key(&key)
    }

    /// Whether an interface with the given index exists.
    pub fn contains_index(&self, index: u32) -> (r: bool)
        requires
            self.wf(),
        ensures
            r == self.view().index_to_name.contains_key(index),
    {
        self.index_to_name.contains_key(&index)
    }

    /// The number of interfaces.
    pub fn len(&self) -> (r: usize)
        requires
            self.wf(),
        ensures
            r == self.view().interfaces.dom().len(),
    {
        proof {
            assert(self.view().interfaces.dom() =~= self.interfaces.map().dom());
        }
        self.interfaces.len()
    }

    /// Whether the table is empty.
    pub fn is_empty(&self) -> (r: bool)
        requires
            self.wf(),
        ensures
            r == (self.view().interfaces.dom().len() == 0),
    {
        self.len() == 0
    }

    /// Clears all data and indices.
    pub fn clear(&mut self)
        ensures
            final(self).wf(),
            final(self).view().interfaces == Map::<Seq<char>, InfoView>::empty(),
            final(self).view().index_to_name == Map::<u32, Seq<char>>::empty(),
            final(self).view().name_to_index == Map::<Seq<char>, u32>::empty(),
            final(self).view().by_type == Set::<(InterfaceType, Seq<char>)>::empty(),
            final(self).view().by_parent == Set::<(Seq<char>, Seq<char>)>::empty(),
            final(self).view().by_state == Set::<(ConnectionState, Seq<char>)>::empty(),
    {
        self.interfaces.clear();
        self.index_to_name.clear();
        self.name_to_index.clear();
        self.by_type.clear();
        self.by_parent.clear();
        self.by_state.clear();
        proof {
            assert(self.view().interfaces =~= Map::<Seq<char>, InfoView>::empty());
            assert(self.view().index_to_name =~= Map::<u32, Seq<char>>::empty());
            assert(self.view().by_type =~= Set::<(InterfaceType, Seq<char>)>::empty());
            assert(self.view().by_parent =~= Set::<(Seq<char>, Seq<char>)>::empty());
            assert(self.view().by_state =~= Set::<(ConnectionState, Seq<char>)>::empty());
        }
    }
}

/// The texts of a list of strings.
pub open spec fn names_view(s: Seq<String>) -> Seq<Seq<char>> {
    s.map_values(|x: String| x@)
}

/// The names recorded under `key` in an index, each once.
fn names_under<K: KeyEq>(index: &AssocVec<(K, String), ()>, key: &K) -> (r: Vec<String>)
    requires
        index.wf(),
    ensures
        forall|n: Seq<char>| #[trigger] names_view(r@).contains(n) <==> index.map().dom().contains((key@, n)),
        names_view(r@).no_duplicates(),
{
    let entries = index.entries();
    proof {
        lemma_map_of(entries@);
    }
    let mut out: Vec<String> = Vec::new();
    let mut i: usize = 0;
    while i < entries.len()
        invariant
            0 <= i <= entries@.len(),
            distinct_keys(entries@),
            map_of(entries@) == index.map(),
            forall|n: Seq<char>| #[trigger] names_view(out@).contains(n) <==> exists|j: int| 0 <= j < i && #[trigger] entries@[j].0@ == (key@, n),
            names_view(out@).no_duplicates(),
        decreases entries@.len() - i,
    {
        let e = &entries[i];
        if e.0.0.key_eq(key) {
            let ghost before = out@;
            let n = copy_string(&e.0.1);
            out.push(n);
            proof {
                let nv = e.0.1@;
                assert(names_view(out@) =~= names_view(before).push(nv));
                assert forall|m: Seq<char>| #[trigger] names_view(out@).contains(m) <==> exists|j: int| 0 <= j < i + 1 && #[trigger] entries@[j].0@ == (key@, m) by {
                    let nb = names_view(before);
                    let no = names_view(out@);
                    if m == nv {
                        assert(entries@[i as int].0@ == (key@, m));
                        assert(no[nb.len() as int] == m);
                    }
                    if no.contains(m) && m != nv {
                        let k = choose|k: int| 0 <= k < no.len() && no[k] == m;
                        assert(k < nb.len());
                        assert(nb[k] == m);
                        assert(nb.contains(m));
                    }
                    if exists|j: int| 0 <= j < i + 1 && #[trigger] entries@[j].0@ == (key@, m) {
                        let j = choose|j: int| 0 <= j < i + 1 && #[trigger] entries@[j].0@ == (key@, m);
                        if j < i {
                            assert(nb.contains(m));
                            let k = choose|k: int| 0 <= k < nb.len() && nb[k] == m;
                            assert(no[k] == m);
                        } else {
                            assert(m == nv);
                            assert(no[nb.len() as int] == m);
                        }
                    }
                }
                assert(!names_view(before).contains(nv)) by {
                    if names_view(before).contains(nv) {
                        let j = choose|j: int| 0 <= j < i && #[trigger] entries@[j].0@ == (key@, nv);
                        assert(entries@[j].0@ != entries@[i as int].0@);
                    }
                }
            }
        } else {
            proof {
                assert(e.0.0@ != key@);
                assert forall|m: Seq<char>| #[trigger] names_view(out@).contains(m) <==> exists|j: int| 0 <= j < i + 1 && #[trigger] entries@[j].0@ == (key@, m) by {
                    if exists|j: int| 0 <= j < i + 1 && #[trigger] entries@[j].0@ == (key@, m) {
                        let j = choose|j: int| 0 <= j < i + 1 && #[trigger] entries@[j].0@ == (key@, m);
                        if j == i {
                            assert(entries@[j].0@.0 == key@);
                            assert(entries@[j].0@.0 == e.0.0@);
                        }
                    }
                }
            }
        }
        i = i + 1;
    }
    proof {
        assert forall|n: Seq<char>| #[trigger] names_view(out@).contains(n) <==> index.map().dom().contains((key@, n)) by {
            if index.map().dom().contains((key@, n)) {
                let j = choose|j: int| 0 <= j < entries@.len() && #[trigger] entries@[j].0@ == (key@, n);
            }
        }
    }
    out
}

impl InterfaceTable {
    /// The interfaces named in `names` that are in the table, in that order.
    fn infos_named(&self, names: &Vec<String>) -> (r: Vec<InterfaceInfo>)
        requires
            self.wf(),
            names_view(names@).no_duplicates(),
        ensures
            exists|ns: Seq<Seq<char>>|
                {
                    &&& ns.no_duplicates()
                    &&& forall|n: Seq<char>| #[trigger] ns.contains(n) <==> (names_view(names@).contains(n)
                        && self.view().interfaces.contains_key(n))
                    &&& r@.len() == ns.len()
                    &&& forall|i: int| 0 <= i < ns.len() ==> info_view(#[trigger] r@[i]) == self.view().interfaces[ns[i]]
                },
    {
        let ghost nv_all = names_view(names@);
        let mut out: Vec<InterfaceInfo> = Vec::new();
        let ghost mut ns: Seq<Seq<char>> = Seq::empty();
        let mut i: usize = 0;
        while i < names.len()
            invariant
                0 <= i <= names@.len(),
                self.wf(),
                nv_all == names_view(names@),
                nv_all.no_duplicates(),
                ns.no_duplicates(),
                forall|n: Seq<char>| #[trigger] ns.contains(n) <==> ((exists|j: int| 0 <= j < i && #[trigger] nv_all[j] == n)
                    && self.view().interfaces.contains_key(n)),
                out@.len() == ns.len(),
                forall|k: int| 0 <= k < ns.len() ==> info_view(#[trigger] out@[k]) == self.view().interfaces[ns[k]],
            decreases names@.len() - i,
        {
            let ghost nv = nv_all[i as int];
            proof {
                assert(nv == names@[i as int]@);
            }
            match self.interfaces.get(&names[i]) {
                Some(info) => {
                    proof {
                        assert(!ns.contains(nv)) by {
                            if ns.contains(nv) {
                                let j = choose|j: int| 0 <= j < i && #[trigger] nv_all[j] == nv;
                                assert(nv_all[j] == nv_all[i as int]);
                            }
                        }
                    }
                    out.push(copy_info(info));
                    proof {
                        let ns1 = ns.push(nv);
                        assert forall|n: Seq<char>| #[trigger] ns1.contains(n) <==> ((exists|j: int| 0 <= j < i + 1 && #[trigger] nv_all[j] == n)
                            && self.view().interfaces.contains_key(n)) by {
                            if n == nv {
                                assert(ns1[ns.len() as int] == n);
                                assert(nv_all[i as int] == n);
                            } else {
                                if ns1.contains(n) {
                                    let k = choose|k: int| 0 <= k < ns1.len() && #[trigger] ns1[k] == n;
                                    assert(ns[k] == n);
                                    assert(ns.contains(n));
                                }
                                if exists|j: int| 0 <= j < i + 1 && #[trigger] nv_all[j] == n {
                                    let j = choose|j: int| 0 <= j < i + 1 && #[trigger] nv_all[j] == n;
                                    assert(j != i);
                                    if self.view().interfaces.contains_key(n) {
                                        assert(ns.contains(n));
                                        let k = choose|k: int| 0 <= k < ns.len() && #[trigger] ns[k] == n;
                                        assert(ns1[k] == n);
                                    }
                                }
                            }
                        }
                        assert forall|k: int| 0 <= k < ns1.len() implies info_view(#[trigger] out@[k]) == self.view().interfaces[ns1[k]] by {
                            if k == ns.len() {
                                assert(self.interfaces.map()[names@[i as int]@] == *info);
                            }
                        }
                        ns = ns1;
                    }
                },
                None => {
                    proof {
                        assert forall|n: Seq<char>| #[trigger] ns.contains(n) <==> ((exists|j: int| 0 <= j < i + 1 && #[trigger] nv_all[j] == n)
                            && self.view().interfaces.contains_key(n)) by {
                            if exists|j: int| 0 <= j < i + 1 && #[trigger] nv_all[j] == n {
                                let j = choose|j: int| 0 <= j < i + 1 && #[trigger] nv_all[j] == n;
                                if j == i {
                                    assert(!self.view().interfaces.contains_key(n));
                                }
                            }
                        }
                    }
                },
            }
            i = i + 1;
        }
        proof {
            assert forall|n: Seq<char>| #[trigger] ns.contains(n) <==> (nv_all.contains(n)
                && self.view().interfaces.contains_key(n)) by {
                if nv_all.contains(n) {
                    let j = choose|j: int| 0 <= j < nv_all.len() && nv_all[j] == n;
                    assert(nv_all[j] == n);
                }
            }
        }
        out
    }

    /// Every interface of the table, each once.
    pub fn all(&self) -> (r: Vec<InterfaceInfo>)
        requires
            self.wf(),
        ensures
            exists|ns: Seq<Seq<char>>|
                {
                    &&& ns.no_duplicates()
                    &&& forall|n: Seq<char>| #[trigger] ns.contains(n) <==> self.view().interfaces.contains_key(n)
                    &&& r@.len() == ns.len()
                    &&& forall|i: int| 0 <= i < ns.len() ==> info_view(#[trigger] r@[i]) == self.view().interfaces[ns[i]]
                },
    {
        let entries = self.interfaces.entries();
        proof {
            lemma_map_of(entries@);
        }
        let mut out: Vec<InterfaceInfo> = Vec::new();
        let ghost mut ns: Seq<Seq<char>> = Seq::empty();
        let mut i: usize = 0;
        while i < entries.len()
            invariant
                0 <= i <= entries@.len(),
                self.wf(),
                distinct_keys(entries@),
                map_of(entries@) == self.interfaces.map(),
                ns.len() == i,
                out@.len() == i,
                forall|k: int| 0 <= k < i ==> #[trigger] ns[k] == entries@[k].0@,
                forall|k: int| 0 <= k < i ==> info_view(#[trigger] out@[k]) == self.view().interfaces[ns[k]],
            decreases entries@.len() - i,
        {
            proof {
                lemma_map_of(entries@);
                assert(self.interfaces.map().contains_key(entries@[i as int].0@));
            }
            out.push(copy_info(&entries[i].1));
            proof {
                ns = ns.push(entries@[i as int].0@);
            }
            i = i + 1;
        }
        proof {
            assert(ns.no_duplicates()) by {
                assert forall|a: int, b: int| 0 <= a < b < ns.len() implies ns[a] != ns[b] by {
                    assert(entries@[a].0@ != entries@[b].0@);
                }
            }
            assert forall|n: Seq<char>| #[trigger] ns.contains(n) <==> self.view().interfaces.contains_key(n) by {
                if ns.contains(n) {
                    let k = choose|k: int| 0 <= k < ns.len() && ns[k] == n;
                    assert(ns[k] == entries@[k].0@);
                }
                if self.view().interfaces.contains_key(n) {
                    assert(self.interfaces.map().contains_key(n));
                    let j = choose|j: int| 0 <= j < entries@.len() && #[trigger] entries@[j].0@ == n;
                    assert(ns[j] == n);
                }
            }
        }
        out
    }

    /// The interfaces of the given type.
    pub fn list_by_type(&self, interface_type: &InterfaceType) -> (r: Vec<InterfaceInfo>)
        requires
            self.wf(),
        ensures
            exists|ns: Seq<Seq<char>>|
                {
                    &&& ns.no_duplicates()
                    &&& forall|n: Seq<char>| #[trigger] ns.contains(n) <==> listed(self.view().by_type, *interface_type, self.view().interfaces).contains(n)
                    &&& r@.len() == ns.len()
                    &&& forall|i: int| 0 <= i < ns.len() ==> info_view(#[trigger] r@[i]) == self.view().interfaces[ns[i]]
                },
    {
        let names = names_under(&self.by_type, interface_type);
        self.infos_named(&names)
    }

    /// The interfaces whose parent device is `parent`.
    pub fn list_by_parent(&self, parent: &str) -> (r: Vec<InterfaceInfo>)
        requires
            self.wf(),
        ensures
            exists|ns: Seq<Seq<char>>|
                {
                    &&& ns.no_duplicates()
                    &&& forall|n: Seq<char>| #[trigger] ns.contains(n) <==> listed(self.view().by_parent, parent@, self.view().interfaces).contains(n)
                    &&& r@.len() == ns.len()
                    &&& forall|i: int| 0 <= i < ns.len() ==> info_view(#[trigger] r@[i]) == self.view().interfaces[ns[i]]
                },
    {
        let key = parent.to_owned();
        let names = names_under(&self.by_parent, &key);
        self.infos_named(&names)
    }

    /// The interfaces in the given connection state.
    pub fn list_by_state(&self, state: &ConnectionState) -> (r: Vec<InterfaceInfo>)
        requires
            self.wf(),
        ensures
            exists|ns: Seq<Seq<char>>|
                {
                    &&& ns.no_duplicates()
                    &&& forall|n: Seq<char>| #[trigger] ns.contains(n) <==> listed(self.view().by_state, *state, self.view().interfaces).contains(n)
                    &&& r@.len() == ns.len()
                    &&& forall|i: int| 0 <= i < ns.len() ==> info_view(#[trigger] r@[i]) == self.view().interfaces[ns[i]]
                },
    {
        let names = names_under(&self.by_state, state);
        self.infos_named(&names)
    }
}

impl Default for InterfaceTable {
    fn default() -> (r: Self)
        ensures
            r.wf(),
            r.view().interfaces == Map::<Seq<char>, InfoView>::empty(),
    {
        InterfaceTable::new()
    }
}

/// Inserting an interface keeps the index and name mappings inverse to
/// each other.
pub proof fn lemma_insert_keeps_indices_agreeing(v: TableView, info: InfoView)
    requires
        indices_agree(v),
    ensures
        indices_agree(after_insert(v, info)),
{
    let w = after_insert(v, info);
    let name = info.name;
    let index = info.id;
    assert forall|i: u32| #[trigger] w.index_to_name.contains_key(i) implies w.name_to_index.contains_key(
        w.index_to_name[i],
    ) && w.name_to_index[w.index_to_name[i]] == i by {
        if i != index {
            let x = w.index_to_name[i];
            assert(v.index_to_name.contains_key(i) && v.index_to_name[i] == x);
            assert(v.name_to_index.contains_key(x) && v.name_to_index[x] == i);
        }
    }
    assert forall|n: Seq<char>| #[trigger] w.name_to_index.contains_key(n) implies w.index_to_name.contains_key(
        w.name_to_index[n],
    ) && w.index_to_name[w.name_to_index[n]] == n by {
        if n != name {
            let j = w.name_to_index[n];
            assert(v.name_to_index.contains_key(n) && v.name_to_index[n] == j);
            assert(v.index_to_name.contains_key(j) && v.index_to_name[j] == n);
        }
    }
}

/// After an insert, the interface is found by its name and by its index,
/// and its name maps to its index.
pub proof fn lemma_insert_then_get(v: TableView, info: InfoView)
    ensures
        after_insert(v, info).interfaces[info.name] == info,
        after_insert(v, info).index_to_name[info.id] == info.name,
        after_insert(v, info).name_to_index[info.name] == info.id,
        after_insert(v, info).interfaces.contains_key(info.name),
        after_insert(v, info).index_to_name.contains_key(info.id),
{
}

/// After a remove, the interface is gone, and so is its index; removing
/// keeps the mappings inverse when the interface held its index.
pub proof fn lemma_remove_then_gone(v: TableView, name: Seq<char>)
    requires
        indices_agree(v),
        v.interfaces.contains_key(name),
        v.name_to_index.contains_key(name),
        v.name_to_index[name] == v.interfaces[name].id,
    ensures
        !after_remove(v, name).interfaces.contains_key(name),
        !after_remove(v, name).index_to_name.contains_key(v.interfaces[name].id),
        indices_agree(after_remove(v, name)),
{
    let w = after_remove(v, name);
    let id = v.interfaces[name].id;
    assert forall|i: u32| #[trigger] w.index_to_name.contains_key(i) implies w.name_to_index.contains_key(
        w.index_to_name[i],
    ) && w.name_to_index[w.index_to_name[i]] == i by {
        let x = v.index_to_name[i];
        assert(v.name_to_index.contains_key(x) && v.name_to_index[x] == i);
        if x == name {
            assert(i == id);
        }
    }
    assert forall|n: Seq<char>| #[trigger] w.name_to_index.contains_key(n) implies w.index_to_name.contains_key(
        w.name_to_index[n],
    ) && w.index_to_name[w.name_to_index[n]] == n by {
        let j = v.name_to_index[n];
        assert(v.index_to_name.contains_key(j) && v.index_to_name[j] == n);
        if j == id {
            assert(v.index_to_name[id] == name);
        }
    }
}

} // verus!
