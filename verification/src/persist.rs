//! The saved Wi-Fi profiles of one WLAN interface: the metadata kept in the
//! configuration, overlaid with the stored credentials, in a fixed order.
use vstd::prelude::*;

use crate::config::{networks_view, DaemonConfig, NetworkConfig, NetworkConfigView};
use crate::mac::{lemma_mac_text_injective, mac_parse, mac_text, MacAddr};
use crate::network::{mac_opt_view, KnownNetwork, KnownNetworkState, KnownNetworkView};
use crate::security::{security_from_name, security_name, Security};
use crate::status::opt_view;
use crate::storage::{credentials_view, Credential, CredentialView};
use crate::text::{chars_of, copy_string, str_eq};

verus! {

/// Character sequences in the order of `String`s: by code point, a proper
/// prefix first (UTF-8 byte order is code-point order).
pub open spec fn text_lt(a: Seq<char>, b: Seq<char>) -> bool
    decreases a.len(),
{
    if b.len() == 0 {
        false
    } else if a.len() == 0 {
        true
    } else if a[0] < b[0] {
        true
    } else if a[0] == b[0] {
        text_lt(a.drop_first(), b.drop_first())
    } else {
        false
    }
}

/// `text_lt` is a strict total order.
pub proof fn lemma_text_order(a: Seq<char>, b: Seq<char>, c: Seq<char>)
    ensures
        !text_lt(a, a),
        text_lt(a, b) ==> !text_lt(b, a),
        a != b ==> text_lt(a, b) || text_lt(b, a),
        text_lt(a, b) && text_lt(b, c) ==> text_lt(a, c),
    decreases a.len(),
{
    if a.len() > 0 {
        lemma_text_order(a.drop_first(), a.drop_first(), a.drop_first());
    }
    if a.len() == 0 && b.len() == 0 {
        assert(a =~= b);
    }
    if a.len() > 0 && b.len() > 0 {
        lemma_text_order(a.drop_first(), b.drop_first(), b.drop_first());

        if a[0] == b[0] && a != b {
            assert(a.drop_first() != b.drop_first()) by {
                if a.drop_first() == b.drop_first() {
                    assert forall|k: int| 0 <= k < a.len() implies a[k] == b[k] by {
                        if k > 0 {
                            assert(a[k] == a.drop_first()[k - 1]);
                            assert(b[k] == b.drop_first()[k - 1]);
                        }
                    }
                    assert(a =~= b);
                }
            }
        }
    }
    if a.len() > 0 && b.len() > 0 && c.len() > 0 {
        lemma_text_order(a.drop_first(), b.drop_first(), c.drop_first());
    }
}

/// With a common prefix of length `i`, the order is decided by what follows.
proof fn lemma_text_lt_skip(a: Seq<char>, b: Seq<char>, i: int)
    requires
        0 <= i <= a.len(),
        i <= b.len(),
        forall|k: int| 0 <= k < i ==> a[k] == b[k],
    ensures
        text_lt(a, b) == text_lt(a.skip(i), b.skip(i)),
    decreases i,
{
    if i > 0 {
        assert(a[0] == b[0]);
        lemma_text_lt_skip(a.drop_first(), b.drop_first(), i - 1);
        assert(a.drop_first().skip(i - 1) =~= a.skip(i));
        assert(b.drop_first().skip(i - 1) =~= b.skip(i));
    } else {
        assert(a.skip(0) =~= a);
        assert(b.skip(0) =~= b);
    }
}

/// Compares two texts: -1, 0 or 1 as `a` comes before, equals or comes
/// after `b`.
fn text_order(a: &Vec<char>, b: &Vec<char>) -> (r: i8)
    ensures
        r == -1 <==> text_lt(a@, b@),
        r == 0 <==> a@ == b@,
        r == 1 <==> text_lt(b@, a@),
        r == -1 || r == 0 || r == 1,
{
    proof {
        lemma_text_order(a@, b@, b@);
    }
    let mut i: usize = 0;
    while i < a.len() && i < b.len() && a[i] == b[i]
        invariant
            0 <= i <= a@.len(),
            i <= b@.len(),
            forall|k: int| 0 <= k < i ==> a@[k] == b@[k],
        decreases a@.len() - i,
    {
        i = i + 1;
    }
    proof {
        lemma_text_lt_skip(a@, b@, i as int);
        lemma_text_lt_skip(b@, a@, i as int);
    }
    if i == a.len() && i == b.len() {
        assert(a@ =~= b@);
        0
    } else if i == a.len() {
        -1
    } else if i == b.len() {
        1
    } else if a[i] < b[i] {
        -1
    } else {
        1
    }
}

/// What a saved profile is found by: its SSID, its BSSID lock and its
/// security type.
pub struct ProfileKey {
    pub ssid: Seq<char>,
    pub bssid: Option<Seq<u8>>,
    pub security: Security,
}

/// The text of an optional BSSID, empty when there is none.
pub open spec fn bssid_text(b: Option<Seq<u8>>) -> Seq<char> {
    match b {
        Some(m) => mac_text(m),
        None => Seq::empty(),
    }
}

/// A key whose BSSID, if any, has six bytes.
pub open spec fn valid_key(k: ProfileKey) -> bool {
    k.bssid matches Some(m) ==> m.len() == 6
}

/// The order of the profiles: by SSID, then the security type's name, then
/// the BSSID's text.
pub open spec fn key_lt(a: ProfileKey, b: ProfileKey) -> bool {
    ||| text_lt(a.ssid, b.ssid)
    ||| a.ssid == b.ssid && text_lt(security_name(a.security), security_name(b.security))
    ||| a.ssid == b.ssid && security_name(a.security) == security_name(b.security) && text_lt(
        bssid_text(a.bssid),
        bssid_text(b.bssid),
    )
}

/// `key_lt` is a strict total order on keys.
pub proof fn lemma_key_order(a: ProfileKey, b: ProfileKey, c: ProfileKey)
    requires
        valid_key(a),
        valid_key(b),
        valid_key(c),
    ensures
        !key_lt(a, a),
        key_lt(a, b) ==> !key_lt(b, a),
        a != b ==> key_lt(a, b) || key_lt(b, a),
        key_lt(a, b) && key_lt(b, c) ==> key_lt(a, c),
{
    lemma_text_order(a.ssid, b.ssid, c.ssid);
    lemma_text_order(security_name(a.security), security_name(b.security), security_name(c.security));
    lemma_text_order(bssid_text(a.bssid), bssid_text(b.bssid), bssid_text(c.bssid));
    reveal_strlit("Open");
    reveal_strlit("EAP");
    reveal_strlit("PSK");
    reveal_strlit("N/A");
    if security_name(a.security) == security_name(b.security) {
        assert(security_name(a.security)[0] == security_name(b.security)[0]);
        assert(a.security == b.security);
    }
    if bssid_text(a.bssid) == bssid_text(b.bssid) {
        match (a.bssid, b.bssid) {
            (Some(x), Some(y)) => {
                lemma_mac_text_injective(x, y);
            },
            (Some(x), None) => {
                assert(mac_text(x).len() == 17);
            },
            (None, Some(y)) => {
                assert(mac_text(y).len() == 17);
            },
            (None, None) => {},
        }
        assert(a.bssid == b.bssid);
    }
}

/// The key of a profile.
pub open spec fn network_key(v: KnownNetworkView) -> ProfileKey {
    ProfileKey { ssid: v.ssid, bssid: v.bssid, security: v.security }
}

/// The key of a network.
pub open spec fn key_of(n: KnownNetwork) -> ProfileKey {
    network_key(n@)
}

proof fn lemma_key_valid(n: KnownNetwork)
    ensures
        valid_key(key_of(n)),
{
    if let Some(m) = n.bssid {
        m.lemma_view(m);
    }
}

/// Networks in strictly increasing key order.
pub open spec fn sorted_by_key(s: Seq<KnownNetwork>) -> bool {
    forall|i: int, j: int| 0 <= i < j < s.len() ==> key_lt(key_of(s[i]), key_of(s[j]))
}

/// The BSSID a stored text stands for: none when there is no text or it is
/// not a MAC address.
pub open spec fn parsed_bssid(t: Option<Seq<char>>) -> Option<Seq<u8>> {
    match t {
        Some(x) => mac_parse(x),
        None => None,
    }
}

/// The key of a configuration entry.
pub open spec fn config_key(n: NetworkConfigView) -> ProfileKey {
    ProfileKey { ssid: n.ssid, bssid: parsed_bssid(n.bssid), security: security_from_name(n.security) }
}

/// The key of a stored credential.
pub open spec fn credential_key(c: CredentialView) -> ProfileKey {
    ProfileKey { ssid: c.ssid, bssid: parsed_bssid(c.bssid), security: security_from_name(c.security) }
}

/// The text an interface's entries are marked with.
pub open spec fn scope_text(m: Option<MacAddr>) -> Option<Seq<char>> {
    match m {
        Some(a) => Some(mac_text(a@)),
        None => None,
    }
}

/// Whether an entry marked `entry` belongs to the interface marked `mac`:
/// it is marked with the same text, or it is unmarked, an interface is
/// given, and its store has no entry marked for that interface (`scoped`).
pub open spec fn in_scope(entry: Option<Seq<char>>, mac: Option<Seq<char>>, scoped: bool) -> bool {
    entry == mac || (mac is Some && !scoped && entry is None)
}

/// Whether the configuration has an entry marked for the interface.
pub open spec fn config_scoped(s: Seq<NetworkConfigView>, mac: Option<Seq<char>>) -> bool {
    mac is Some && exists|i: int| 0 <= i < s.len() && #[trigger] s[i].interface_mac == mac
}

/// Whether the credential store has an entry marked for the interface.
pub open spec fn credentials_scoped(s: Seq<CredentialView>, mac: Option<Seq<char>>) -> bool {
    mac is Some && exists|i: int| 0 <= i < s.len() && #[trigger] s[i].interface_mac == mac
}

/// The last configuration entry of the interface with key `k`.
pub open spec fn last_metadata(
    s: Seq<NetworkConfigView>,
    mac: Option<Seq<char>>,
    scoped: bool,
    k: ProfileKey,
) -> Option<NetworkConfigView>
    decreases s.len(),
{
    if s.len() == 0 {
        None
    } else if in_scope(s.last().interface_mac, mac, scoped) && config_key(s.last()) == k {
        Some(s.last())
    } else {
        last_metadata(s.drop_last(), mac, scoped, k)
    }
}

/// The last stored credential of the interface with key `k`.
pub open spec fn last_credential(
    s: Seq<CredentialView>,
    mac: Option<Seq<char>>,
    scoped: bool,
    k: ProfileKey,
) -> Option<CredentialView>
    decreases s.len(),
{
    if s.len() == 0 {
        None
    } else if in_scope(s.last().interface_mac, mac, scoped) && credential_key(s.last()) == k {
        Some(s.last())
    } else {
        last_credential(s.drop_last(), mac, scoped, k)
    }
}

/// The profile with key `k`: priority, hidden flag and state from its
/// metadata (0, not hidden and enabled without any), password and identity
/// from its credential.
pub open spec fn profile_of(
    k: ProfileKey,
    meta: Option<NetworkConfigView>,
    cred: Option<CredentialView>,
) -> KnownNetworkView {
    KnownNetworkView {
        id: None,
        priority: match meta {
            Some(m) => m.priority,
            None => 0,
        },
        hidden: match meta {
            Some(m) => m.hidden,
            None => false,
        },
        security: k.security,
        state: match meta {
            Some(m) => if m.enabled {
                KnownNetworkState::Enabled
            } else {
                KnownNetworkState::Disabled
            },
            None => KnownNetworkState::Enabled,
        },
        ssid: k.ssid,
        bssid: k.bssid,
        password: match cred {
            Some(c) => c.psk,
            None => None,
        },
        identity: match cred {
            Some(c) => c.identity,
            None => None,
        },
    }
}

/// The saved profiles of an interface, given its configuration entries and
/// credentials: one per key that an entry of the interface has, each made
/// by `profile_of` from the last metadata and the last credential with that
/// key, in increasing key order.
pub open spec fn persisted_profiles(
    r: Seq<KnownNetwork>,
    cs: Seq<NetworkConfigView>,
    ks: Seq<CredentialView>,
    mac: Option<Seq<char>>,
) -> bool {
    let sc = config_scoped(cs, mac);
    let kc = credentials_scoped(ks, mac);
    &&& sorted_by_key(r)
    &&& forall|i: int|
        0 <= i < r.len() ==> #[trigger] r[i]@ == profile_of(
            key_of(r[i]),
            last_metadata(cs, mac, sc, key_of(r[i])),
            last_credential(ks, mac, kc, key_of(r[i])),
        )
    &&& forall|i: int|
        0 <= i < r.len() ==> (last_metadata(cs, mac, sc, #[trigger] key_of(r[i])) is Some
            || last_credential(ks, mac, kc, key_of(r[i])) is Some)
    &&& forall|k: ProfileKey|
        (#[trigger] last_metadata(cs, mac, sc, k) is Some || last_credential(ks, mac, kc, k) is Some)
            ==> exists|i: int| 0 <= i < r.len() && key_of(r[i]) == k
}

proof fn lemma_last_metadata_step(
    s: Seq<NetworkConfigView>,
    i: int,
    mac: Option<Seq<char>>,
    scoped: bool,
    k: ProfileKey,
)
    requires
        0 <= i < s.len(),
    ensures
        last_metadata(s.take(i + 1), mac, scoped, k) == (if in_scope(s[i].interface_mac, mac, scoped)
            && config_key(s[i]) == k {
            Some(s[i])
        } else {
            last_metadata(s.take(i), mac, scoped, k)
        }),
{
    assert(s.take(i + 1).drop_last() =~= s.take(i));
}

proof fn lemma_last_credential_step(
    s: Seq<CredentialView>,
    i: int,
    mac: Option<Seq<char>>,
    scoped: bool,
    k: ProfileKey,
)
    requires
        0 <= i < s.len(),
    ensures
        last_credential(s.take(i + 1), mac, scoped, k) == (if in_scope(
            s[i].interface_mac,
            mac,
            scoped,
        ) && credential_key(s[i]) == k {
            Some(s[i])
        } else {
            last_credential(s.take(i), mac, scoped, k)
        }),
{
    assert(s.take(i + 1).drop_last() =~= s.take(i));
}

proof fn lemma_insert_sorted(s: Seq<KnownNetwork>, p: int, n: KnownNetwork)
    requires
        sorted_by_key(s),
        0 <= p <= s.len(),
        forall|x: int| 0 <= x < p ==> key_lt(key_of(s[x]), key_of(n)),
        p == s.len() || key_lt(key_of(n), key_of(s[p])),
    ensures
        sorted_by_key(s.insert(p, n)),
{
    let t = s.insert(p, n);
    assert forall|i: int, j: int| 0 <= i < j < t.len() implies key_lt(key_of(t[i]), key_of(t[j])) by {
        if i < p && j > p {
            lemma_key_valid(s[i]);
            lemma_key_valid(n);
            lemma_key_valid(s[j - 1]);
            lemma_key_order(key_of(s[i]), key_of(n), key_of(s[j - 1]));
        } else if i == p {
            lemma_key_valid(s[p]);
            lemma_key_valid(n);
            lemma_key_valid(s[j - 1]);
            lemma_key_order(key_of(n), key_of(s[p]), key_of(s[j - 1]));
        }
    }
}

/// Keys of a sorted list are distinct.
proof fn lemma_sorted_distinct(s: Seq<KnownNetwork>, i: int, j: int)
    requires
        sorted_by_key(s),
        0 <= i < s.len(),
        0 <= j < s.len(),
        i != j,
    ensures
        key_of(s[i]) != key_of(s[j]),
{
    lemma_key_valid(s[i]);
    lemma_key_order(key_of(s[i]), key_of(s[i]), key_of(s[i]));
}

/// The texts a network is ordered by.
fn order_texts(n: &KnownNetwork) -> (r: (Vec<char>, Vec<char>, Vec<char>))
    ensures
        r.0@ == n.ssid@,
        r.1@ == security_name(n.security),
        r.2@ == bssid_text(mac_opt_view(n.bssid)),
{
    let b = match n.bssid {
        Some(m) => chars_of(m.to_string().as_str()),
        None => Vec::new(),
    };
    (chars_of(n.ssid.as_str()), chars_of(n.security.to_string().as_str()), b)
}

/// Compares the keys of two networks: -1, 0 or 1.
fn key_order(a: &KnownNetwork, b: &KnownNetwork) -> (r: i8)
    ensures
        r == -1 <==> key_lt(key_of(*a), key_of(*b)),
        r == 0 <==> key_of(*a) == key_of(*b),
        r == 1 <==> key_lt(key_of(*b), key_of(*a)),
        r == -1 || r == 0 || r == 1,
{
    proof {
        lemma_key_valid(*a);
        lemma_key_valid(*b);
        lemma_key_order(key_of(*a), key_of(*b), key_of(*b));
    }
    let (a0, a1, a2) = order_texts(a);
    let (b0, b1, b2) = order_texts(b);
    let o0 = text_order(&a0, &b0);
    if o0 != 0 {
        return o0;
    }
    let o1 = text_order(&a1, &b1);
    if o1 != 0 {
        return o1;
    }
    let o2 = text_order(&a2, &b2);
    proof {
        if o2 == 0 {
            lemma_key_order(key_of(*a), key_of(*b), key_of(*b));
            if key_of(*a) != key_of(*b) {
                assert(key_lt(key_of(*a), key_of(*b)) || key_lt(key_of(*b), key_of(*a)));
                lemma_text_order(a2@, a2@, a2@);
                lemma_text_order(a1@, a1@, a1@);
                lemma_text_order(a0@, a0@, a0@);
            }
        }
    }
    o2
}

/// Where a network's key stands in a sorted list: the first place whose key
/// is not below it, and whether the key is there.
fn locate(out: &Vec<KnownNetwork>, n: &KnownNetwork) -> (r: (usize, bool))
    requires
        sorted_by_key(out@),
    ensures
        r.0 <= out@.len(),
        forall|x: int| 0 <= x < r.0 ==> key_lt(key_of(out@[x]), key_of(*n)),
        r.1 ==> r.0 < out@.len() && key_of(out@[r.0 as int]) == key_of(*n),
        !r.1 ==> r.0 == out@.len() || key_lt(key_of(*n), key_of(out@[r.0 as int])),
{
    let mut p: usize = 0;
    while p < out.len()
        invariant
            p <= out@.len(),
            forall|x: int| 0 <= x < p ==> key_lt(key_of(out@[x]), key_of(*n)),
        decreases out@.len() - p,
    {
        let o = key_order(&out[p], n);
        if o != -1 {
            return (p, o == 0);
        }
        p = p + 1;
    }
    (p, false)
}

/// A copy of an optional text.
fn copy_opt(o: &Option<String>) -> (r: Option<String>)
    ensures
        opt_view(r) == opt_view(*o),
{
    match o {
        Some(s) => Some(copy_string(s)),
        None => None,
    }
}

/// The BSSID a stored text stands for.
fn parse_bssid(t: &Option<String>) -> (r: Option<MacAddr>)
    ensures
        mac_opt_view(r) == parsed_bssid(opt_view(*t)),
{
    match t {
        Some(x) => MacAddr::parse(x.as_str()),
        None => None,
    }
}

/// Whether an entry marked `entry` belongs to the interface marked `mac`.
fn entry_in_scope(entry: &Option<String>, mac: &Option<String>, scoped: bool) -> (r: bool)
    ensures
        r == in_scope(opt_view(*entry), opt_view(*mac), scoped),
{
    let same = match (entry, mac) {
        (Some(x), Some(y)) => str_eq(x.as_str(), y.as_str()),
        (None, None) => true,
        _ => false,
    };
    same || (mac.is_some() && !scoped && entry.is_none())
}

/// Whether a list has a network with key `k`.
#[verifier::opaque]
pub open spec fn has_key(out: Seq<KnownNetwork>, k: ProfileKey) -> bool {
    exists|x: int| 0 <= x < out.len() && key_of(out[x]) == k
}

/// The profiles merged from the metadata entries `s` of an interface.
#[verifier::opaque]
pub open spec fn metadata_merged(
    out: Seq<KnownNetwork>,
    s: Seq<NetworkConfigView>,
    mac: Option<Seq<char>>,
    sc: bool,
) -> bool {
    &&& sorted_by_key(out)
    &&& forall|x: int|
        0 <= x < out.len() ==> #[trigger] out[x]@ == profile_of(
            key_of(out[x]),
            last_metadata(s, mac, sc, key_of(out[x])),
            None,
        )
    &&& forall|x: int|
        0 <= x < out.len() ==> last_metadata(s, mac, sc, #[trigger] key_of(out[x])) is Some
    &&& forall|k: ProfileKey| #[trigger] last_metadata(s, mac, sc, k) is Some ==> has_key(out, k)
}

/// The profiles merged from all metadata `cs` and the credentials `ks` of
/// an interface.
#[verifier::opaque]
pub open spec fn credentials_merged(
    out: Seq<KnownNetwork>,
    cs: Seq<NetworkConfigView>,
    ks: Seq<CredentialView>,
    mac: Option<Seq<char>>,
    sc: bool,
    kc: bool,
) -> bool {
    &&& sorted_by_key(out)
    &&& forall|x: int|
        0 <= x < out.len() ==> #[trigger] out[x]@ == profile_of(
            key_of(out[x]),
            last_metadata(cs, mac, sc, key_of(out[x])),
            last_credential(ks, mac, kc, key_of(out[x])),
        )
    &&& forall|x: int|
        0 <= x < out.len() ==> (last_metadata(cs, mac, sc, #[trigger] key_of(out[x])) is Some
            || last_credential(ks, mac, kc, key_of(out[x])) is Some)
    &&& forall|k: ProfileKey|
        (#[trigger] last_metadata(cs, mac, sc, k) is Some || last_credential(ks, mac, kc, k) is Some)
            ==> has_key(out, k)
}

/// A key that is not in a sorted list, placed where `locate` put it.
proof fn lemma_absent(before: Seq<KnownNetwork>, p: int, net: KnownNetwork)
    requires
        sorted_by_key(before),
        0 <= p <= before.len(),
        forall|x: int| 0 <= x < p ==> key_lt(key_of(before[x]), key_of(net)),
        p == before.len() || key_lt(key_of(net), key_of(before[p])),
    ensures
        forall|x: int| 0 <= x < before.len() ==> key_of(#[trigger] before[x]) != key_of(net),
        sorted_by_key(before.insert(p, net)),
{
    lemma_insert_sorted(before, p, net);
    assert forall|x: int| 0 <= x < before.len() implies key_of(#[trigger] before[x]) != key_of(net) by {
        lemma_key_valid(before[x]);
        lemma_key_valid(net);
        if x < p {
            lemma_key_order(key_of(before[x]), key_of(net), key_of(net));
        } else {
            lemma_key_valid(before[p]);
            lemma_key_order(key_of(net), key_of(before[p]), key_of(before[x]));
        }
    }
}

/// A metadata entry whose key is already merged replaces that profile.
proof fn lemma_metadata_replace(
    before: Seq<KnownNetwork>,
    p: int,
    net: KnownNetwork,
    prev: Seq<NetworkConfigView>,
    e: NetworkConfigView,
    mac: Option<Seq<char>>,
    sc: bool,
)
    requires
        metadata_merged(before, prev, mac, sc),
        0 <= p < before.len(),
        key_of(before[p]) == key_of(net),
        in_scope(e.interface_mac, mac, sc),
        config_key(e) == key_of(net),
        net@ == profile_of(key_of(net), Some(e), None),
    ensures
        metadata_merged(before.update(p, net), prev.push(e), mac, sc),
{
    reveal(metadata_merged);
    let s = prev.push(e);
    assert(s.drop_last() =~= prev);
    let after = before.update(p, net);
    let kn = key_of(net);
    assert forall|a: int, b: int| 0 <= a < b < after.len() implies key_lt(
        key_of(after[a]),
        key_of(after[b]),
    ) by {
        assert(key_of(after[a]) == key_of(before[a]));
        assert(key_of(after[b]) == key_of(before[b]));
    }
    assert forall|x: int| 0 <= x < after.len() implies #[trigger] after[x]@ == profile_of(
        key_of(after[x]),
        last_metadata(s, mac, sc, key_of(after[x])),
        None,
    ) && last_metadata(s, mac, sc, key_of(after[x])) is Some by {
        if x != p {
            lemma_sorted_distinct(before, x, p);
        }
    }
    assert forall|k: ProfileKey| #[trigger] last_metadata(s, mac, sc, k) is Some implies has_key(
        after,
        k,
    ) by {
        reveal(has_key);
        if k == kn {
            assert(key_of(after[p]) == k);
        } else {
            assert(last_metadata(s, mac, sc, k) == last_metadata(prev, mac, sc, k));
            assert(has_key(before, k));
            let x = choose|x: int| 0 <= x < before.len() && key_of(before[x]) == k;
            assert(key_of(after[x]) == k);
        }
    }
}

/// A metadata entry with a new key is inserted at its place.
proof fn lemma_metadata_insert(
    before: Seq<KnownNetwork>,
    p: int,
    net: KnownNetwork,
    prev: Seq<NetworkConfigView>,
    e: NetworkConfigView,
    mac: Option<Seq<char>>,
    sc: bool,
)
    requires
        metadata_merged(before, prev, mac, sc),
        0 <= p <= before.len(),
        forall|x: int| 0 <= x < p ==> key_lt(key_of(before[x]), key_of(net)),
        p == before.len() || key_lt(key_of(net), key_of(before[p])),
        in_scope(e.interface_mac, mac, sc),
        config_key(e) == key_of(net),
        net@ == profile_of(key_of(net), Some(e), None),
    ensures
        metadata_merged(before.insert(p, net), prev.push(e), mac, sc),
{
    reveal(metadata_merged);
    let s = prev.push(e);
    assert(s.drop_last() =~= prev);
    let after = before.insert(p, net);
    let kn = key_of(net);
    lemma_absent(before, p, net);
    assert forall|x: int| 0 <= x < after.len() implies #[trigger] after[x]@ == profile_of(
        key_of(after[x]),
        last_metadata(s, mac, sc, key_of(after[x])),
        None,
    ) && last_metadata(s, mac, sc, key_of(after[x])) is Some by {
        if x < p {
            assert(after[x] == before[x]);
        } else if x > p {
            assert(after[x] == before[x - 1]);
        }
    }
    assert forall|k: ProfileKey| #[trigger] last_metadata(s, mac, sc, k) is Some implies has_key(
        after,
        k,
    ) by {
        reveal(has_key);
        if k == kn {
            assert(key_of(after[p]) == k);
        } else {
            assert(last_metadata(s, mac, sc, k) == last_metadata(prev, mac, sc, k));
            assert(has_key(before, k));
            let x = choose|x: int| 0 <= x < before.len() && key_of(before[x]) == k;
            if x < p {
                assert(key_of(after[x]) == k);
            } else {
                assert(key_of(after[x + 1]) == k);
            }
        }
    }
}

/// A credential whose key is already merged sets that profile's password
/// and identity.
proof fn lemma_credential_replace(
    before: Seq<KnownNetwork>,
    p: int,
    net: KnownNetwork,
    cs: Seq<NetworkConfigView>,
    prev: Seq<CredentialView>,
    c: CredentialView,
    mac: Option<Seq<char>>,
    sc: bool,
    kc: bool,
)
    requires
        credentials_merged(before, cs, prev, mac, sc, kc),
        0 <= p < before.len(),
        key_of(before[p]) == key_of(net),
        in_scope(c.interface_mac, mac, kc),
        credential_key(c) == key_of(net),
        net@ == profile_of(key_of(net), last_metadata(cs, mac, sc, key_of(net)), Some(c)),
    ensures
        credentials_merged(before.update(p, net), cs, prev.push(c), mac, sc, kc),
{
    reveal(credentials_merged);
    let s = prev.push(c);
    assert(s.drop_last() =~= prev);
    let after = before.update(p, net);
    let kn = key_of(net);
    assert forall|a: int, b: int| 0 <= a < b < after.len() implies key_lt(
        key_of(after[a]),
        key_of(after[b]),
    ) by {
        assert(key_of(after[a]) == key_of(before[a]));
        assert(key_of(after[b]) == key_of(before[b]));
    }
    assert forall|x: int| 0 <= x < after.len() implies #[trigger] after[x]@ == profile_of(
        key_of(after[x]),
        last_metadata(cs, mac, sc, key_of(after[x])),
        last_credential(s, mac, kc, key_of(after[x])),
    ) && (last_metadata(cs, mac, sc, key_of(after[x])) is Some || last_credential(
        s,
        mac,
        kc,
        key_of(after[x]),
    ) is Some) by {
        if x != p {
            lemma_sorted_distinct(before, x, p);
        }
    }
    assert forall|k: ProfileKey| #[trigger] last_metadata(cs, mac, sc, k) is Some
        || last_credential(s, mac, kc, k) is Some implies has_key(after, k) by {
        reveal(has_key);
        if k == kn {
            assert(key_of(after[p]) == k);
        } else {
            assert(last_credential(s, mac, kc, k) == last_credential(prev, mac, kc, k));
            assert(has_key(before, k));
            let x = choose|x: int| 0 <= x < before.len() && key_of(before[x]) == k;
            assert(key_of(after[x]) == k);
        }
    }
}

/// A credential with a new key is inserted at its place.
proof fn lemma_credential_insert(
    before: Seq<KnownNetwork>,
    p: int,
    net: KnownNetwork,
    cs: Seq<NetworkConfigView>,
    prev: Seq<CredentialView>,
    c: CredentialView,
    mac: Option<Seq<char>>,
    sc: bool,
    kc: bool,
)
    requires
        credentials_merged(before, cs, prev, mac, sc, kc),
        0 <= p <= before.len(),
        forall|x: int| 0 <= x < p ==> key_lt(key_of(before[x]), key_of(net)),
        p == before.len() || key_lt(key_of(net), key_of(before[p])),
        in_scope(c.interface_mac, mac, kc),
        credential_key(c) == key_of(net),
        net@ == profile_of(key_of(net), None, Some(c)),
    ensures
        credentials_merged(before.insert(p, net), cs, prev.push(c), mac, sc, kc),
{
    reveal(credentials_merged);
    let s = prev.push(c);
    assert(s.drop_last() =~= prev);
    let after = before.insert(p, net);
    let kn = key_of(net);
    lemma_absent(before, p, net);
    if last_metadata(cs, mac, sc, kn) is Some || last_credential(prev, mac, kc, kn) is Some {
        reveal(has_key);
        let x = choose|x: int| 0 <= x < before.len() && key_of(before[x]) == kn;
        assert(false);
    }
    assert forall|x: int| 0 <= x < after.len() implies #[trigger] after[x]@ == profile_of(
        key_of(after[x]),
        last_metadata(cs, mac, sc, key_of(after[x])),
        last_credential(s, mac, kc, key_of(after[x])),
    ) && (last_metadata(cs, mac, sc, key_of(after[x])) is Some || last_credential(
        s,
        mac,
        kc,
        key_of(after[x]),
    ) is Some) by {
        if x < p {
            assert(after[x] == before[x]);
        } else if x > p {
            assert(after[x] == before[x - 1]);
        }
    }
    assert forall|k: ProfileKey| #[trigger] last_metadata(cs, mac, sc, k) is Some
        || last_credential(s, mac, kc, k) is Some implies has_key(after, k) by {
        reveal(has_key);
        if k == kn {
            assert(key_of(after[p]) == k);
        } else {
            assert(last_credential(s, mac, kc, k) == last_credential(prev, mac, kc, k));
            assert(has_key(before, k));
            let x = choose|x: int| 0 <= x < before.len() && key_of(before[x]) == k;
            if x < p {
                assert(key_of(after[x]) == k);
            } else {
                assert(key_of(after[x + 1]) == k);
            }
        }
    }
}

/// Adds one metadata entry to the profiles merged so far.
fn add_metadata(
    out: &mut Vec<KnownNetwork>,
    n: &NetworkConfig,
    mac_s: &Option<String>,
    sc: bool,
    Ghost(prev): Ghost<Seq<NetworkConfigView>>,
)
    requires
        metadata_merged(old(out)@, prev, opt_view(*mac_s), sc),
    ensures
        metadata_merged(final(out)@, prev.push(n@), opt_view(*mac_s), sc),
{
    if !entry_in_scope(&n.interface_mac, mac_s, sc) {
        proof {
            reveal(metadata_merged);
            let s = prev.push(n@);
            assert(s.drop_last() =~= prev);
            assert forall|k: ProfileKey| true implies #[trigger] last_metadata(
                s,
                opt_view(*mac_s),
                sc,
                k,
            ) == last_metadata(prev, opt_view(*mac_s), sc, k) by {}
        }
        return ;
    }
    let net = KnownNetwork {
        id: None,
        priority: n.priority,
        hidden: n.hidden,
        security: Security::from_name(n.security.as_str()),
        state: if n.enabled {
            KnownNetworkState::Enabled
        } else {
            KnownNetworkState::Disabled
        },
        ssid: copy_string(&n.ssid),
        bssid: parse_bssid(&n.bssid),
        password: None,
        identity: None,
    };
    let ghost before = out@;
    proof {
        reveal(metadata_merged);
    }
    let (p, found) = locate(out, &net);
    if found {
        proof {
            lemma_metadata_replace(before, p as int, net, prev, n@, opt_view(*mac_s), sc);
        }
        out.set(p, net);
    } else {
        proof {
            lemma_metadata_insert(before, p as int, net, prev, n@, opt_view(*mac_s), sc);
        }
        out.insert(p, net);
    }
}

/// Adds one credential to the profiles merged so far.
fn add_credential(
    out: &mut Vec<KnownNetwork>,
    c: &Credential,
    mac_s: &Option<String>,
    sc: bool,
    kc: bool,
    Ghost(cs): Ghost<Seq<NetworkConfigView>>,
    Ghost(prev): Ghost<Seq<CredentialView>>,
)
    requires
        credentials_merged(old(out)@, cs, prev, opt_view(*mac_s), sc, kc),
    ensures
        credentials_merged(final(out)@, cs, prev.push(c@), opt_view(*mac_s), sc, kc),
{
    if !entry_in_scope(&c.interface_mac, mac_s, kc) {
        proof {
            reveal(credentials_merged);
            let s = prev.push(c@);
            assert(s.drop_last() =~= prev);
            assert forall|k: ProfileKey| true implies #[trigger] last_credential(
                s,
                opt_view(*mac_s),
                kc,
                k,
            ) == last_credential(prev, opt_view(*mac_s), kc, k) by {}
        }
        return ;
    }
    let net = KnownNetwork {
        id: None,
        priority: 0,
        hidden: false,
        security: Security::from_name(c.security.as_str()),
        state: KnownNetworkState::Enabled,
        ssid: copy_string(&c.ssid),
        bssid: parse_bssid(&c.bssid),
        password: copy_opt(&c.psk),
        identity: copy_opt(&c.identity),
    };
    let ghost before = out@;
    proof {
        reveal(credentials_merged);
    }
    let (p, found) = locate(out, &net);
    if found {
        let mut e = out.remove(p);
        e.password = copy_opt(&c.psk);
        e.identity = copy_opt(&c.identity);
        proof {
            assert(key_of(e) == key_of(before[p as int]));
            lemma_credential_replace(
                before,
                p as int,
                e,
                cs,
                prev,
                c@,
                opt_view(*mac_s),
                sc,
                kc,
            );
        }
        out.insert(p, e);
        assert(out@ =~= before.update(p as int, e));
    } else {
        proof {
            lemma_credential_insert(
                before,
                p as int,
                net,
                cs,
                prev,
                c@,
                opt_view(*mac_s),
                sc,
                kc,
            );
        }
        out.insert(p, net);
    }
}

/// Loads the saved profiles of the WLAN interface with MAC address
/// `interface_mac` (or of no interface): the configuration metadata and the
/// stored credentials that belong to it (`in_scope`), merged by SSID,
/// BSSID and security. Metadata gives priority, hidden flag and state; the
/// last credential of a key gives its password and identity; a key with
/// only a credential gets priority 0, not hidden and enabled. Sorted by
/// SSID, security name and BSSID text.
pub fn persisted_networks(
    config: &DaemonConfig,
    credentials: &Vec<Credential>,
    interface_mac: Option<MacAddr>,
) -> (r: Vec<KnownNetwork>)
    ensures
        persisted_profiles(
            r@,
            networks_view(config.networks@),
            credentials_view(credentials@),
            scope_text(interface_mac),
        ),
{
    let ghost cs = networks_view(config.networks@);
    let ghost ks = credentials_view(credentials@);
    let ghost mac = scope_text(interface_mac);
    let mac_s: Option<String> = match interface_mac {
        Some(m) => Some(m.to_string()),
        None => None,
    };
    assert(opt_view(mac_s) == mac);
    let mut sc = false;
    let mut i: usize = 0;
    while i < config.networks.len()
        invariant
            0 <= i <= cs.len(),
            cs == networks_view(config.networks@),
            opt_view(mac_s) == mac,
            sc == (mac is Some && exists|x: int| 0 <= x < i && #[trigger] cs[x].interface_mac == mac),
        decreases cs.len() - i,
    {
        let e = &config.networks[i].interface_mac;
        let hit = match (e, &mac_s) {
            (Some(x), Some(y)) => str_eq(x.as_str(), y.as_str()),
            _ => false,
        };
        assert(cs[i as int].interface_mac == opt_view(*e));
        if hit {
            sc = true;
        }
        i = i + 1;
    }
    assert(sc == config_scoped(cs, mac));
    let mut kc = false;
    let mut j: usize = 0;
    while j < credentials.len()
        invariant
            0 <= j <= ks.len(),
            ks == credentials_view(credentials@),
            opt_view(mac_s) == mac,
            kc == (mac is Some && exists|x: int| 0 <= x < j && #[trigger] ks[x].interface_mac == mac),
        decreases ks.len() - j,
    {
        let e = &credentials[j].interface_mac;
        let hit = match (e, &mac_s) {
            (Some(x), Some(y)) => str_eq(x.as_str(), y.as_str()),
            _ => false,
        };
        assert(ks[j as int].interface_mac == opt_view(*e));
        if hit {
            kc = true;
        }
        j = j + 1;
    }
    assert(kc == credentials_scoped(ks, mac));
    let mut out: Vec<KnownNetwork> = Vec::new();
    let mut i: usize = 0;
    assert(metadata_merged(out@, cs.take(0), mac, sc)) by {
        reveal(metadata_merged);
    }
    while i < config.networks.len()
        invariant
            0 <= i <= cs.len(),
            cs == networks_view(config.networks@),
            opt_view(mac_s) == mac,
            metadata_merged(out@, cs.take(i as int), mac, sc),
        decreases cs.len() - i,
    {
        assert(cs.take(i + 1) =~= cs.take(i as int).push(config.networks[i as int]@));
        add_metadata(&mut out, &config.networks[i], &mac_s, sc, Ghost(cs.take(i as int)));
        i = i + 1;
    }
    assert(cs.take(cs.len() as int) =~= cs);
    assert(credentials_merged(out@, cs, ks.take(0), mac, sc, kc)) by {
        reveal(metadata_merged);
        reveal(credentials_merged);
    }
    let mut j: usize = 0;
    while j < credentials.len()
        invariant
            0 <= j <= ks.len(),
            ks == credentials_view(credentials@),
            opt_view(mac_s) == mac,
            credentials_merged(out@, cs, ks.take(j as int), mac, sc, kc),
        decreases ks.len() - j,
    {
        assert(ks.take(j + 1) =~= ks.take(j as int).push(credentials[j as int]@));
        add_credential(
            &mut out,
            &credentials[j],
            &mac_s,
            sc,
            kc,
            Ghost(cs),
            Ghost(ks.take(j as int)),
        );
        j = j + 1;
    }
    assert(ks.take(ks.len() as int) =~= ks);
    proof {
        reveal(credentials_merged);
        reveal(has_key);
    }
    out
}

} // verus!
