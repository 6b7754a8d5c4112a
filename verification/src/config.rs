//! Daemon configuration: daemon behaviour and non-sensitive state
//! (known-network metadata, per-interface settings).
//!
//! Sensitive Wi-Fi credentials are deliberately not part of it.
use vstd::prelude::*;

use std::collections::BTreeMap;

use crate::interface::{LinkOptions, WlanLinkOptions};
use crate::status::opt_view;
use crate::text::str_eq;

verus! {

/// Per-interface persisted settings (non-sensitive).
#[derive(Debug, Clone)]
pub struct InterfaceConfig {
    /// Accept kernel Router Advertisements (SLAAC) for IPv6.
    pub slaac: bool,
    /// Run the internal DHCPv4 client.
    pub dhcpv4: bool,
    /// Allow automatic WLAN interface creation for this device.
    pub create_wlan: bool,
    /// Explicit WLAN creation parameters.
    pub wlan: Option<WlanLinkOptions>,
    /// Explicit logical-interface creation parameters.
    pub creation: Option<LinkOptions>,
}

impl Default for InterfaceConfig {
    fn default() -> (r: Self)
        ensures
            !r.slaac,
            r.dhcpv4,
            r.create_wlan,
            r.wlan.is_none(),
            r.creation.is_none(),
    {
        InterfaceConfig { slaac: false, dhcpv4: true, create_wlan: true, wlan: None, creation: None }
    }
}

/// The default of the settings that are on unless the file says otherwise.
pub fn default_true() -> (r: bool)
    ensures
        r,
{
    true
}

/// Known-network metadata. Credentials are kept elsewhere.
#[derive(Debug, Clone)]
pub struct NetworkConfig {
    pub ssid: String,
    /// MAC address of the WLAN interface that owns this saved AP.
    pub interface_mac: Option<String>,
    /// Optional BSSID lock (MAC string).
    pub bssid: Option<String>,
    /// Security variant name: "Open" | "Psk" | "Eap" | "Unknown".
    pub security: String,
    pub hidden: bool,
    pub priority: i32,
    pub enabled: bool,
}

/// The plain contents of a `NetworkConfig`.
pub struct NetworkConfigView {
    pub ssid: Seq<char>,
    pub interface_mac: Option<Seq<char>>,
    pub bssid: Option<Seq<char>>,
    pub security: Seq<char>,
    pub hidden: bool,
    pub priority: i32,
    pub enabled: bool,
}

impl View for NetworkConfig {
    type V = NetworkConfigView;

    open spec fn view(&self) -> NetworkConfigView {
        NetworkConfigView {
            ssid: self.ssid@,
            interface_mac: opt_view(self.interface_mac),
            bssid: opt_view(self.bssid),
            security: self.security@,
            hidden: self.hidden,
            priority: self.priority,
            enabled: self.enabled,
        }
    }
}

/// Two entries describe the same interface-owned AP profile.
pub open spec fn same_profile(a: NetworkConfigView, b: NetworkConfigView) -> bool {
    &&& a.interface_mac == b.interface_mac
    &&& a.ssid == b.ssid
    &&& a.bssid == b.bssid
    &&& a.security == b.security
}

/// The index of the first entry of `s` with the profile of `n`.
pub open spec fn find_profile(s: Seq<NetworkConfigView>, n: NetworkConfigView) -> Option<int>
    decreases s.len(),
{
    if s.len() == 0 {
        None
    } else {
        match find_profile(s.drop_last(), n) {
            Some(k) => Some(k),
            None => if same_profile(s.last(), n) {
                Some(s.len() - 1)
            } else {
                None
            },
        }
    }
}

/// The entries after `upsert_network(n)`: the first entry with the profile
/// of `n` replaced by `n`, or `n` appended when there is none.
pub open spec fn upsert_view(s: Seq<NetworkConfigView>, n: NetworkConfigView) -> Seq<
    NetworkConfigView,
> {
    match find_profile(s, n) {
        Some(k) => s.update(k, n),
        None => s.push(n),
    }
}

/// Whether an entry is selected by a removal request; a request without a
/// security name selects every security.
pub open spec fn removal_selects(
    n: NetworkConfigView,
    interface_mac: Option<Seq<char>>,
    ssid: Seq<char>,
    bssid: Option<Seq<char>>,
    security: Option<Seq<char>>,
) -> bool {
    &&& n.interface_mac == interface_mac
    &&& n.ssid == ssid
    &&& n.bssid == bssid
    &&& (security is None || n.security == security->0)
}

/// The entries kept by a removal request, in their order.
pub open spec fn keep_unselected(
    s: Seq<NetworkConfigView>,
    interface_mac: Option<Seq<char>>,
    ssid: Seq<char>,
    bssid: Option<Seq<char>>,
    security: Option<Seq<char>>,
) -> Seq<NetworkConfigView>
    decreases s.len(),
{
    if s.len() == 0 {
        Seq::empty()
    } else {
        let rest = keep_unselected(s.drop_last(), interface_mac, ssid, bssid, security);
        if removal_selects(s.last(), interface_mac, ssid, bssid, security) {
            rest
        } else {
            rest.push(s.last())
        }
    }
}

/// The view of an optional string slice.
pub open spec fn opt_str_view(o: Option<&str>) -> Option<Seq<char>> {
    match o {
        Some(s) => Some(s@),
        None => None,
    }
}

/// Errors while reading the configuration.
#[derive(Debug, Clone)]
pub enum ConfigError {
    NotFound(String),
    Read(crate::error::IoError),
    Parse(String),
}

/// Daemon configuration.
#[derive(Debug, Clone)]
pub struct DaemonConfig {
    /// Known-network metadata.
    pub networks: Vec<NetworkConfig>,
    /// Per-interface settings keyed by interface name.
    pub interface: BTreeMap<String, InterfaceConfig>,
}

/// The views of a list of entries.
pub open spec fn networks_view(v: Seq<NetworkConfig>) -> Seq<NetworkConfigView> {
    v.map_values(|n: NetworkConfig| n@)
}

/// Equality of two optional strings.
fn opt_string_eq(a: &Option<String>, b: &Option<String>) -> (r: bool)
    ensures
        r == (opt_view(*a) == opt_view(*b)),
{
    match (a, b) {
        (Some(x), Some(y)) => str_eq(x.as_str(), y.as_str()),
        (None, None) => true,
        _ => false,
    }
}

/// Equality of an optional string and an optional string slice.
fn opt_string_eq_str(a: &Option<String>, b: Option<&str>) -> (r: bool)
    ensures
        r == (opt_view(*a) == opt_str_view(b)),
{
    match (a, b) {
        (Some(x), Some(y)) => str_eq(x.as_str(), y),
        (None, None) => true,
        _ => false,
    }
}

/// Whether two entries describe the same profile.
fn same_profile_exec(a: &NetworkConfig, b: &NetworkConfig) -> (r: bool)
    ensures
        r == same_profile(a@, b@),
{
    opt_string_eq(&a.interface_mac, &b.interface_mac) && str_eq(a.ssid.as_str(), b.ssid.as_str())
        && opt_string_eq(&a.bssid, &b.bssid) && str_eq(a.security.as_str(), b.security.as_str())
}

/// `find_profile` is the first entry with the profile.
pub proof fn lemma_find_profile(s: Seq<NetworkConfigView>, n: NetworkConfigView)
    ensures
        match find_profile(s, n) {
            Some(k) => 0 <= k < s.len() && same_profile(s[k], n) && forall|j: int|
                0 <= j < k ==> !same_profile(#[trigger] s[j], n),
            None => forall|j: int| 0 <= j < s.len() ==> !same_profile(#[trigger] s[j], n),
        },
    decreases s.len(),
{
    if s.len() > 0 {
        lemma_find_profile(s.drop_last(), n);
        assert forall|j: int| 0 <= j < s.len() - 1 implies s.drop_last()[j] == s[j] by {}
    }
}

/// A first match found by a scan is what `find_profile` answers.
proof fn lemma_find_profile_first(s: Seq<NetworkConfigView>, n: NetworkConfigView, k: int)
    requires
        0 <= k < s.len(),
        same_profile(s[k], n),
        forall|j: int| 0 <= j < k ==> !same_profile(#[trigger] s[j], n),
    ensures
        find_profile(s, n) == Some(k),
{
    lemma_find_profile(s, n);
    match find_profile(s, n) {
        Some(m) => {
            if m < k {
                assert(!same_profile(s[m], n));
            }
            if k < m {
                assert(!same_profile(s[k], n));
            }
        },
        None => {
            assert(!same_profile(s[k], n));
        },
    }
}

proof fn lemma_networks_view_push(v: Seq<NetworkConfig>, n: NetworkConfig)
    ensures
        networks_view(v.push(n)) == networks_view(v).push(n@),
{
    assert(networks_view(v.push(n)) =~= networks_view(v).push(n@));
}

proof fn lemma_keep_step(
    s: Seq<NetworkConfigView>,
    i: int,
    interface_mac: Option<Seq<char>>,
    ssid: Seq<char>,
    bssid: Option<Seq<char>>,
    security: Option<Seq<char>>,
)
    requires
        0 <= i < s.len(),
    ensures
        keep_unselected(s.take(i + 1), interface_mac, ssid, bssid, security) == (if removal_selects(
            s[i],
            interface_mac,
            ssid,
            bssid,
            security,
        ) {
            keep_unselected(s.take(i), interface_mac, ssid, bssid, security)
        } else {
            keep_unselected(s.take(i), interface_mac, ssid, bssid, security).push(s[i])
        }),
{
    assert(s.take(i + 1).drop_last() =~= s.take(i));
    assert(s.take(i + 1).last() == s[i]);
}

/// A removal keeps the length exactly when it selects nothing, and keeps no
/// selected entry.
pub proof fn lemma_keep_unselected(
    s: Seq<NetworkConfigView>,
    interface_mac: Option<Seq<char>>,
    ssid: Seq<char>,
    bssid: Option<Seq<char>>,
    security: Option<Seq<char>>,
)
    ensures
        keep_unselected(s, interface_mac, ssid, bssid, security).len() <= s.len(),
        (keep_unselected(s, interface_mac, ssid, bssid, security).len() == s.len()) == (forall|
            j: int,
        | 0 <= j < s.len() ==> !removal_selects(#[trigger] s[j], interface_mac, ssid, bssid, security)),
        forall|j: int|
            0 <= j < keep_unselected(s, interface_mac, ssid, bssid, security).len()
                ==> !removal_selects(
                #[trigger] keep_unselected(s, interface_mac, ssid, bssid, security)[j],
                interface_mac,
                ssid,
                bssid,
                security,
            ),
    decreases s.len(),
{
    if s.len() > 0 {
        let t = s.drop_last();
        lemma_keep_unselected(t, interface_mac, ssid, bssid, security);
        assert forall|j: int| 0 <= j < s.len() - 1 implies t[j] == s[j] by {}
        let k = keep_unselected(s, interface_mac, ssid, bssid, security);
        let kt = keep_unselected(t, interface_mac, ssid, bssid, security);
        if removal_selects(s.last(), interface_mac, ssid, bssid, security) {
            assert(!(forall|j: int|
                0 <= j < s.len() ==> !removal_selects(
                    #[trigger] s[j],
                    interface_mac,
                    ssid,
                    bssid,
                    security,
                ))) by {
                assert(removal_selects(s[s.len() - 1], interface_mac, ssid, bssid, security));
            }
        } else {
            assert forall|j: int| 0 <= j < k.len() implies !removal_selects(
                #[trigger] k[j],
                interface_mac,
                ssid,
                bssid,
                security,
            ) by {
                if j < kt.len() {
                    assert(k[j] == kt[j]);
                }
            }
            if kt.len() == t.len() {
                assert forall|j: int| 0 <= j < s.len() implies !removal_selects(
                    #[trigger] s[j],
                    interface_mac,
                    ssid,
                    bssid,
                    security,
                ) by {
                    if j < s.len() - 1 {
                        assert(t[j] == s[j]);
                    }
                }
            } else {
                assert(!(forall|j: int|
                    0 <= j < t.len() ==> !removal_selects(
                        #[trigger] t[j],
                        interface_mac,
                        ssid,
                        bssid,
                        security,
                    )));
                let w = choose|j: int|
                    0 <= j < t.len() && removal_selects(
                        #[trigger] t[j],
                        interface_mac,
                        ssid,
                        bssid,
                        security,
                    );
                assert(s[w] == t[w]);
            }
        }
    }
}

/// Replacing a selected entry by another selected entry does not change
/// what a removal keeps.
proof fn lemma_keep_update(
    s: Seq<NetworkConfigView>,
    k: int,
    n: NetworkConfigView,
    interface_mac: Option<Seq<char>>,
    ssid: Seq<char>,
    bssid: Option<Seq<char>>,
    security: Option<Seq<char>>,
)
    requires
        0 <= k < s.len(),
        removal_selects(s[k], interface_mac, ssid, bssid, security),
        removal_selects(n, interface_mac, ssid, bssid, security),
    ensures
        keep_unselected(s.update(k, n), interface_mac, ssid, bssid, security) == keep_unselected(
            s,
            interface_mac,
            ssid,
            bssid,
            security,
        ),
    decreases s.len(),
{
    let u = s.update(k, n);
    if k == s.len() - 1 {
        assert(u.drop_last() =~= s.drop_last());
    } else {
        assert(u.drop_last() =~= s.drop_last().update(k, n));
        lemma_keep_update(s.drop_last(), k, n, interface_mac, ssid, bssid, security);
    }
}

/// After an upsert, the first entry with the profile of `n` is `n` itself;
/// the list grows by one entry exactly when no entry had that profile, and
/// the entries before it are unchanged.
pub proof fn lemma_upsert_then_find(s: Seq<NetworkConfigView>, n: NetworkConfigView)
    ensures
        match find_profile(upsert_view(s, n), n) {
            Some(k) => upsert_view(s, n)[k] == n && forall|j: int|
                0 <= j < k ==> #[trigger] upsert_view(s, n)[j] == s[j],
            None => false,
        },
        upsert_view(s, n).len() == s.len() + (if find_profile(s, n) is None {
            1int
        } else {
            0int
        }),
{
    lemma_find_profile(s, n);
    let u = upsert_view(s, n);
    match find_profile(s, n) {
        Some(k) => {
            assert forall|j: int| 0 <= j < k implies !same_profile(#[trigger] u[j], n) by {
                assert(u[j] == s[j]);
            }
            lemma_find_profile_first(u, n, k);
        },
        None => {
            assert forall|j: int| 0 <= j < s.len() implies !same_profile(#[trigger] u[j], n) by {
                assert(u[j] == s[j]);
            }
            lemma_find_profile_first(u, n, s.len() as int);
        },
    }
}

/// Removing a profile after upserting it leaves what removing it before
/// would have left: the upsert is undone.
pub proof fn lemma_upsert_then_remove(s: Seq<NetworkConfigView>, n: NetworkConfigView)
    ensures
        keep_unselected(upsert_view(s, n), n.interface_mac, n.ssid, n.bssid, Some(n.security))
            == keep_unselected(s, n.interface_mac, n.ssid, n.bssid, Some(n.security)),
{
    lemma_find_profile(s, n);
    match find_profile(s, n) {
        Some(k) => {
            lemma_keep_update(s, k, n, n.interface_mac, n.ssid, n.bssid, Some(n.security));
        },
        None => {
            assert(s.push(n).drop_last() =~= s);
        },
    }
}

impl Default for DaemonConfig {
    fn default() -> (r: Self)
        ensures
            r.networks@.len() == 0,
            r.interface@.len() == 0,
    {
        DaemonConfig { networks: Vec::new(), interface: BTreeMap::new() }
    }
}

impl DaemonConfig {
    /// Inserts or updates the metadata of one interface-owned AP profile:
    /// the first entry with the same interface, SSID, BSSID and security is
    /// replaced, or the entry is appended when there is none.
    pub fn upsert_network(&mut self, net: NetworkConfig)
        ensures
            networks_view(final(self).networks@) == upsert_view(
                networks_view(old(self).networks@),
                net@,
            ),
            final(self).interface@ == old(self).interface@,
    {
        let ghost s = networks_view(self.networks@);
        let mut i: usize = 0;
        while i < self.networks.len()
            invariant
                0 <= i <= self.networks@.len(),
                self.networks@ == old(self).networks@,
                self.interface@ == old(self).interface@,
                s == networks_view(self.networks@),
                forall|j: int| 0 <= j < i ==> !same_profile(#[trigger] s[j], net@),
            decreases self.networks@.len() - i,
        {
            if same_profile_exec(&self.networks[i], &net) {
                proof {
                    lemma_find_profile_first(s, net@, i as int);
                }
                let ghost before = self.networks@;
                self.networks.set(i, net);
                proof {
                    assert(networks_view(self.networks@) =~= s.update(i as int, net@));
                }
                return ;
            }
            i = i + 1;
        }
        proof {
            lemma_find_profile(s, net@);
            if let Some(k) = find_profile(s, net@) {
                assert(!same_profile(s[k], net@));
            }
            lemma_networks_view_push(self.networks@, net);
        }
        self.networks.push(net);
    }

    /// Removes the metadata selected by interface, SSID, BSSID and (when
    /// given) security. Returns whether anything was removed.
    pub fn remove_network(
        &mut self,
        interface_mac: Option<&str>,
        ssid: &str,
        bssid: Option<&str>,
        security: Option<&str>,
    ) -> (r: bool)
        ensures
            networks_view(final(self).networks@) == keep_unselected(
                networks_view(old(self).networks@),
                opt_str_view(interface_mac),
                ssid@,
                opt_str_view(bssid),
                opt_str_view(security),
            ),
            r == exists|j: int|
                0 <= j < old(self).networks@.len() && removal_selects(
                    #[trigger] networks_view(old(self).networks@)[j],
                    opt_str_view(interface_mac),
                    ssid@,
                    opt_str_view(bssid),
                    opt_str_view(security),
                ),
            final(self).interface@ == old(self).interface@,
    {
        let ghost s = networks_view(self.networks@);
        let ghost im = opt_str_view(interface_mac);
        let ghost bs = opt_str_view(bssid);
        let ghost sec = opt_str_view(security);
        let before = self.networks.len();
        let mut kept: Vec<NetworkConfig> = Vec::new();
        let mut rest: Vec<NetworkConfig> = Vec::new();
        std::mem::swap(&mut rest, &mut self.networks);
        let ghost orig = rest@;
        let mut i: usize = 0;
        while rest.len() > 0
            invariant
                0 <= i <= orig.len(),
                rest@ == orig.skip(i as int),
                s == networks_view(orig),
                before == orig.len(),
                im == opt_str_view(interface_mac),
                bs == opt_str_view(bssid),
                sec == opt_str_view(security),
                networks_view(kept@) == keep_unselected(s.take(i as int), im, ssid@, bs, sec),
            decreases rest@.len(),
        {
            let n = rest.remove(0);
            proof {
                assert(n == orig[i as int]);
                lemma_keep_step(s, i as int, im, ssid@, bs, sec);
                assert(s[i as int] == n@);
                assert(rest@ =~= orig.skip(i as int + 1));
            }
            let selected = opt_string_eq_str(&n.interface_mac, interface_mac) && str_eq(
                n.ssid.as_str(),
                ssid,
            ) && opt_string_eq_str(&n.bssid, bssid) && match security {
                Some(value) => str_eq(n.security.as_str(), value),
                None => true,
            };
            if !selected {
                proof {
                    lemma_networks_view_push(kept@, n);
                }
                kept.push(n);
            }
            i = i + 1;
        }
        proof {
            assert(i == orig.len()) by {
                assert(orig.skip(i as int).len() == 0);
            }
        }
        proof {
            assert(s.take(s.len() as int) =~= s);
            lemma_keep_unselected(s, im, ssid@, bs, sec);
        }
        self.networks = kept;
        let removed = self.networks.len() != before;
        proof {
            if removed {
                assert(!(forall|j: int|
                    0 <= j < s.len() ==> !removal_selects(#[trigger] s[j], im, ssid@, bs, sec)));
            }
        }
        removed
    }
}

} // verus!
