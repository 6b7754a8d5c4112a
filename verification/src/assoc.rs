//! Small maps and sets kept as lists, for keys that are compared by value.
use vstd::prelude::*;

use crate::interface::InterfaceType;
use crate::state::ConnectionState;
use crate::text::str_eq;

verus! {

/// A key compared by its view.
pub trait KeyEq: View + Sized {
    fn key_eq(&self, other: &Self) -> (r: bool)
        ensures
            r == (self@ == other@),
    ;
}

impl KeyEq for u32 {
    fn key_eq(&self, other: &u32) -> (r: bool) {
        *self == *other
    }
}

impl KeyEq for String {
    fn key_eq(&self, other: &String) -> (r: bool) {
        str_eq(self.as_str(), other.as_str())
    }
}

impl<A: KeyEq, B: KeyEq> KeyEq for (A, B) {
    fn key_eq(&self, other: &(A, B)) -> (r: bool) {
        self.0.key_eq(&other.0) && self.1.key_eq(&other.1)
    }
}

impl View for InterfaceType {
    type V = InterfaceType;

    open spec fn view(&self) -> InterfaceType {
        *self
    }
}

impl KeyEq for InterfaceType {
    fn key_eq(&self, other: &InterfaceType) -> (r: bool) {
        *self == *other
    }
}

impl View for ConnectionState {
    type V = ConnectionState;

    open spec fn view(&self) -> ConnectionState {
        *self
    }
}

impl KeyEq for ConnectionState {
    fn key_eq(&self, other: &ConnectionState) -> (r: bool) {
        *self == *other
    }
}

/// The map of a list of entries whose keys are distinct.
pub open spec fn map_of<K: View, V>(s: Seq<(K, V)>) -> Map<K::V, V>
    decreases s.len(),
{
    if s.len() == 0 {
        Map::empty()
    } else {
        map_of(s.drop_last()).insert(s.last().0@, s.last().1)
    }
}

/// No two entries have the same key.
pub open spec fn distinct_keys<K: View, V>(s: Seq<(K, V)>) -> bool {
    forall|i: int, j: int| 0 <= i < j < s.len() ==> (#[trigger] s[i]).0@ != (#[trigger] s[j]).0@
}

proof fn lemma_distinct_prefix<K: View, V>(s: Seq<(K, V)>)
    requires
        distinct_keys(s),
        s.len() > 0,
    ensures
        distinct_keys(s.drop_last()),
{
    let t = s.drop_last();
    assert forall|i: int, j: int| 0 <= i < j < t.len() implies (#[trigger] t[i]).0@ != (
    #[trigger] t[j]).0@ by {
        assert(t[i] == s[i] && t[j] == s[j]);
    }
}

/// What `map_of` holds: each entry, and nothing else.
pub proof fn lemma_map_of<K: View, V>(s: Seq<(K, V)>)
    requires
        distinct_keys(s),
    ensures
        map_of(s).dom().finite(),
        map_of(s).dom().len() == s.len(),
        forall|j: int|
            0 <= j < s.len() ==> #[trigger] map_of(s).contains_key(s[j].0@) && map_of(s)[s[j].0@]
                == s[j].1,
        forall|k: K::V| #[trigger]
            map_of(s).contains_key(k) ==> exists|j: int| 0 <= j < s.len() && #[trigger] s[j].0@ == k,
    decreases s.len(),
{
    if s.len() > 0 {
        let t = s.drop_last();
        lemma_distinct_prefix(s);
        lemma_map_of(t);
        assert forall|j: int| 0 <= j < s.len() implies #[trigger] map_of(s).contains_key(s[j].0@)
            && map_of(s)[s[j].0@] == s[j].1 by {
            if j < s.len() - 1 {
                assert(t[j] == s[j]);
                assert(map_of(t).contains_key(t[j].0@));
                assert(s[j].0@ != s[s.len() - 1].0@);
            }
        }
        assert forall|k: K::V| #[trigger] map_of(s).contains_key(k) implies exists|j: int|
            0 <= j < s.len() && #[trigger] s[j].0@ == k by {
            if k != s.last().0@ {
                assert(map_of(t).contains_key(k));
                let j = choose|j: int| 0 <= j < t.len() && #[trigger] t[j].0@ == k;
                assert(s[j] == t[j]);
            } else {
                assert(s[s.len() - 1].0@ == k);
            }
        }
        if map_of(t).contains_key(s.last().0@) {
            let j = choose|j: int| 0 <= j < t.len() && #[trigger] t[j].0@ == s.last().0@;
            assert(s[j] == t[j]);
        }
    }
}

/// A list with distinct keys and the same entries as a map has that map.
proof fn lemma_map_of_eq<K: View, V>(s: Seq<(K, V)>, m: Map<K::V, V>)
    requires
        distinct_keys(s),
        forall|j: int| 0 <= j < s.len() ==> #[trigger] m.contains_key(s[j].0@) && m[s[j].0@] == s[j].1,
        forall|k: K::V| #[trigger] m.contains_key(k) ==> exists|j: int| 0 <= j < s.len() && #[trigger] s[j].0@ == k,
    ensures
        map_of(s) == m,
{
    lemma_map_of(s);
    assert forall|k: K::V| #[trigger] map_of(s).contains_key(k) == m.contains_key(k) by {
        if m.contains_key(k) {
            let j = choose|j: int| 0 <= j < s.len() && #[trigger] s[j].0@ == k;
            assert(map_of(s).contains_key(s[j].0@));
        }
        if map_of(s).contains_key(k) {
            let j = choose|j: int| 0 <= j < s.len() && #[trigger] s[j].0@ == k;
            assert(m.contains_key(s[j].0@));
        }
    }
    assert forall|k: K::V| #[trigger] map_of(s).contains_key(k) implies map_of(s)[k] == m[k] by {
        let j = choose|j: int| 0 <= j < s.len() && #[trigger] s[j].0@ == k;
        assert(map_of(s)[s[j].0@] == s[j].1);
    }
    assert(map_of(s) =~= m);
}

/// A map kept as a list of entries with distinct keys.
pub struct AssocVec<K, V> {
    entries: Vec<(K, V)>,
}

impl<K: KeyEq, V> AssocVec<K, V> {
    /// The entries, by key.
    pub closed spec fn map(&self) -> Map<K::V, V> {
        map_of(self.entries@)
    }

    /// No two entries have the same key.
    pub closed spec fn wf(&self) -> bool {
        distinct_keys(self.entries@)
    }

    /// An empty map.
    pub fn new() -> (r: Self)
        ensures
            r.wf(),
            r.map() == Map::<K::V, V>::empty(),
    {
        AssocVec { entries: Vec::new() }
    }

    /// The position of the entry with the key.
    fn position(&self, k: &K) -> (r: Option<usize>)
        requires
            self.wf(),
        ensures
            match r {
                Some(i) => i < self.entries@.len() && self.entries@[i as int].0@ == k@,
                None => !self.map().contains_key(k@),
            },
            r is None <==> !self.map().contains_key(k@),
    {
        proof {
            lemma_map_of(self.entries@);
        }
        let mut i: usize = 0;
        while i < self.entries.len()
            invariant
                0 <= i <= self.entries@.len(),
                forall|j: int| 0 <= j < i ==> (#[trigger] self.entries@[j]).0@ != k@,
                distinct_keys(self.entries@),
            decreases self.entries@.len() - i,
        {
            if self.entries[i].0.key_eq(k) {
                proof {
                    lemma_map_of(self.entries@);
                    assert(map_of(self.entries@).contains_key(self.entries@[i as int].0@));
                }
                return Some(i);
            }
            i = i + 1;
        }
        proof {
            if self.map().contains_key(k@) {
                let j = choose|j: int| 0 <= j < self.entries@.len() && #[trigger] self.entries@[j].0@ == k@;
                assert(self.entries@[j].0@ != k@);
            }
        }
        None
    }

    /// The value under the key.
    pub fn get(&self, k: &K) -> (r: Option<&V>)
        requires
            self.wf(),
        ensures
            match r {
                Some(v) => self.map().contains_key(k@) && *v == self.map()[k@],
                None => !self.map().contains_key(k@),
            },
    {
        proof {
            lemma_map_of(self.entries@);
        }
        match self.position(k) {
            Some(i) => Some(&self.entries[i].1),
            None => None,
        }
    }

    /// Whether the key has an entry.
    pub fn contains_key(&self, k: &K) -> (r: bool)
        requires
            self.wf(),
        ensures
            r == self.map().contains_key(k@),
    {
        self.position(k).is_some()
    }

    /// The number of entries.
    pub fn len(&self) -> (r: usize)
        requires
            self.wf(),
        ensures
            r == self.map().dom().len(),
    {
        proof {
            lemma_map_of(self.entries@);
        }
        self.entries.len()
    }

    /// The entries, in some order, each key once.
    pub fn entries(&self) -> (r: &Vec<(K, V)>)
        requires
            self.wf(),
        ensures
            distinct_keys(r@),
            map_of(r@) == self.map(),
    {
        &self.entries
    }

    /// Sets the value under the key; returns the value it replaces.
    pub fn insert(&mut self, k: K, v: V) -> (r: Option<V>)
        requires
            old(self).wf(),
        ensures
            final(self).wf(),
            final(self).map() == old(self).map().insert(k@, v),
            match r {
                Some(p) => old(self).map().contains_key(k@) && p == old(self).map()[k@],
                None => !old(self).map().contains_key(k@),
            },
    {
        let ghost s0 = self.entries@;
        let ghost kv = k@;
        proof {
            lemma_map_of(s0);
        }
        match self.position(&k) {
            Some(i) => {
                let ghost m = map_of(s0).insert(kv, v);
                let old_entry = self.entries.remove(i);
                self.entries.insert(i, (k, v));
                proof {
                    let s1 = self.entries@;
                    assert(s1 =~= s0.update(i as int, s1[i as int]));
                    assert(distinct_keys(s1)) by {
                        assert forall|a: int, b: int| 0 <= a < b < s1.len() implies (#[trigger] s1[a]).0@
                            != (#[trigger] s1[b]).0@ by {
                            if a != i && b != i {
                                assert(s1[a] == s0[a] && s1[b] == s0[b]);
                            } else if a == i {
                                assert(s1[b] == s0[b]);
                                assert(s0[a].0@ != s0[b].0@);
                            } else {
                                assert(s1[a] == s0[a]);
                                assert(s0[a].0@ != s0[b].0@);
                            }
                        }
                    }
                    assert forall|j: int| 0 <= j < s1.len() implies #[trigger] m.contains_key(s1[j].0@)
                        && m[s1[j].0@] == s1[j].1 by {
                        if j != i {
                            assert(s1[j] == s0[j]);
                            assert(map_of(s0).contains_key(s0[j].0@));
                        }
                    }
                    assert forall|key: K::V| #[trigger] m.contains_key(key) implies exists|j: int|
                        0 <= j < s1.len() && #[trigger] s1[j].0@ == key by {
                        if key == kv {
                            assert(s1[i as int].0@ == key);
                        } else {
                            let j = choose|j: int| 0 <= j < s0.len() && #[trigger] s0[j].0@ == key;
                            assert(s1[j] == s0[j]);
                        }
                    }
                    lemma_map_of_eq(s1, m);
                    assert(old_entry == s0[i as int]);
                    assert(map_of(s0)[s0[i as int].0@] == s0[i as int].1);
                }
                Some(old_entry.1)
            },
            None => {
                self.entries.push((k, v));
                proof {
                    let s1 = self.entries@;
                    assert(s1.drop_last() =~= s0);
                    assert(distinct_keys(s1)) by {
                        assert forall|a: int, b: int| 0 <= a < b < s1.len() implies (#[trigger] s1[a]).0@
                            != (#[trigger] s1[b]).0@ by {
                            if b < s0.len() {
                                assert(s1[a] == s0[a] && s1[b] == s0[b]);
                            } else {
                                assert(s1[a] == s0[a]);
                                assert(map_of(s0).contains_key(s0[a].0@));
                            }
                        }
                    }
                }
                None
            },
        }
    }

    /// Removes the entry with the key; returns its value.
    pub fn remove(&mut self, k: &K) -> (r: Option<V>)
        requires
            old(self).wf(),
        ensures
            final(self).wf(),
            final(self).map() == old(self).map().remove(k@),
            match r {
                Some(p) => old(self).map().contains_key(k@) && p == old(self).map()[k@],
                None => !old(self).map().contains_key(k@),
            },
    {
        let ghost s0 = self.entries@;
        proof {
            lemma_map_of(s0);
        }
        match self.position(k) {
            Some(i) => {
                let old_entry = self.entries.remove(i);
                proof {
                    let s1 = self.entries@;
                    let m = map_of(s0).remove(k@);
                    assert(s1 =~= s0.remove(i as int));
                    assert(distinct_keys(s1)) by {
                        assert forall|a: int, b: int| 0 <= a < b < s1.len() implies (#[trigger] s1[a]).0@
                            != (#[trigger] s1[b]).0@ by {
                            let a0 = if a < i { a } else { a + 1 };
                            let b0 = if b < i { b } else { b + 1 };
                            assert(s1[a] == s0[a0] && s1[b] == s0[b0]);
                        }
                    }
                    assert forall|j: int| 0 <= j < s1.len() implies #[trigger] m.contains_key(s1[j].0@)
                        && m[s1[j].0@] == s1[j].1 by {
                        let j0 = if j < i { j } else { j + 1 };
                        assert(s1[j] == s0[j0]);
                        assert(map_of(s0).contains_key(s0[j0].0@));
                        assert(s0[j0].0@ != s0[i as int].0@);
                    }
                    assert forall|key: K::V| #[trigger] m.contains_key(key) implies exists|j: int|
                        0 <= j < s1.len() && #[trigger] s1[j].0@ == key by {
                        let j0 = choose|j: int| 0 <= j < s0.len() && #[trigger] s0[j].0@ == key;
                        assert(j0 != i);
                        let j = if j0 < i { j0 } else { j0 - 1 };
                        assert(s1[j] == s0[j0]);
                    }
                    lemma_map_of_eq(s1, m);
                    assert(old_entry == s0[i as int]);
                    assert(map_of(s0)[s0[i as int].0@] == s0[i as int].1);
                }
                Some(old_entry.1)
            },
            None => {
                proof {
                    assert(map_of(s0).remove(k@) =~= map_of(s0));
                }
                None
            },
        }
    }

    /// Removes every entry.
    pub fn clear(&mut self)
        ensures
            final(self).wf(),
            final(self).map() == Map::<K::V, V>::empty(),
    {
        self.entries = Vec::new();
    }
}

} // verus!
