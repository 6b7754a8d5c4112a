//! Logical interfaces that the daemon creates on its own: default WLANs for
//! wireless devices, and the persisted links it recreates on start.
use vstd::prelude::*;

use std::collections::BTreeMap;

use crate::config::{DaemonConfig, InterfaceConfig};
use crate::interface::{InterfaceInfo, InterfaceType, LinkOptions};
use crate::status::opt_view;
use crate::text::{append_str, nat_text, push_decimal, str_eq};

verus! {

/// The settings stored under `name` (`BTreeMap::get`).
///
/// Claims what std documents: the value stored under an equal key, or none
/// when there is no such key.
#[verifier::external_body]
fn settings_get<'a>(m: &'a BTreeMap<String, InterfaceConfig>, name: &String) -> (r: Option<
    &'a InterfaceConfig,
>)
    ensures
        match r {
            Some(v) => m@.contains_key(*name) && m@[*name] == *v,
            None => !m@.contains_key(*name),
        },
{
    m.get(name)
}

/// All stored (name, settings) entries (`BTreeMap::iter`).
///
/// Claims what std documents: each entry of the map, and every key of the
/// map among them.
#[verifier::external_body]
fn settings_entries<'a>(m: &'a BTreeMap<String, InterfaceConfig>) -> (r: Vec<
    (&'a String, &'a InterfaceConfig),
>)
    ensures
        forall|i: int|
            0 <= i < r@.len() ==> m@.contains_key(*(#[trigger] r@[i]).0) && m@[*r@[i].0]
                == *r@[i].1,
        forall|k: String| #[trigger]
            m@.contains_key(k) ==> exists|i: int| 0 <= i < r@.len() && *r@[i].0 == k,
{
    m.iter().collect()
}

/// Stores `v` under `name` (`BTreeMap::insert`).
///
/// Claims what std documents: afterwards the map holds `v` under `name` and
/// is otherwise unchanged.
#[verifier::external_body]
fn settings_insert(m: &mut BTreeMap<String, InterfaceConfig>, name: String, v: InterfaceConfig)
    ensures
        final(m)@ == old(m)@.insert(name, v),
{
    m.insert(name, v);
}

/// The settings of an interface after its creation parameters are set:
/// the stored ones with `creation` replaced, or the defaults with it.
pub open spec fn with_creation(old: Option<InterfaceConfig>, creation: LinkOptions) -> InterfaceConfig {
    match old {
        Some(c) => InterfaceConfig { creation: Some(creation), ..c },
        None => InterfaceConfig {
            slaac: false,
            dhcpv4: true,
            create_wlan: true,
            wlan: None,
            creation: Some(creation),
        },
    }
}

impl DaemonConfig {
    /// Records how the logical interface `name` is created, keeping its other
    /// settings; an interface without settings gets the defaults.
    pub fn set_creation(&mut self, name: &String, creation: LinkOptions)
        ensures
            final(self).networks == old(self).networks,
            final(self).interface@ == old(self).interface@.insert(
                *name,
                with_creation(
                    if old(self).interface@.contains_key(*name) {
                        Some(old(self).interface@[*name])
                    } else {
                        None
                    },
                    creation,
                ),
            ),
    {
        let entry = match settings_get(&self.interface, name) {
            Some(c) => InterfaceConfig {
                slaac: c.slaac,
                dhcpv4: c.dhcpv4,
                create_wlan: c.create_wlan,
                wlan: c.wlan,
                creation: Some(creation),
            },
            None => {
                let d = InterfaceConfig::default();
                InterfaceConfig {
                    slaac: d.slaac,
                    dhcpv4: d.dhcpv4,
                    create_wlan: d.create_wlan,
                    wlan: d.wlan,
                    creation: Some(creation),
                }
            },
        };
        settings_insert(&mut self.interface, name.clone(), entry);
    }
}

/// `wlan<n>`.
pub open spec fn wlan_name(n: nat) -> Seq<char> {
    "wlan"@ + nat_text(n)
}

/// Whether an existing WLAN interface has the device as its parent.
pub open spec fn has_wlan_on(interfaces: Seq<InterfaceInfo>, device: Seq<char>) -> bool {
    exists|i: int|
        0 <= i < interfaces.len() && #[trigger] interfaces[i].interface_type == InterfaceType::Wlan
            && opt_view(interfaces[i].parent) == Some(device)
}

/// Whether the configuration creates a WLAN on the device.
pub open spec fn configured_wlan_on(m: Map<String, InterfaceConfig>, device: Seq<char>) -> bool {
    exists|k: String| #[trigger]
        m.contains_key(k) && (m[k].creation matches Some(LinkOptions::Wlan { parent, .. })
            && parent@ == device)
}

/// Whether the device's own settings turn automatic WLAN creation off, or
/// give explicit WLAN parameters.
pub open spec fn opted_out(m: Map<String, InterfaceConfig>, device: String) -> bool {
    m.contains_key(device) && (!m[device].create_wlan || m[device].wlan is Some)
}

/// Whether a wireless device gets a default WLAN.
pub open spec fn wants_auto_wlan(
    device: String,
    interfaces: Seq<InterfaceInfo>,
    m: Map<String, InterfaceConfig>,
) -> bool {
    !has_wlan_on(interfaces, device@) && !configured_wlan_on(m, device@) && !opted_out(m, device)
}

/// The first `wlan<k>` with `n <= k < u32::MAX` that is not taken.
pub open spec fn next_free(n: int, taken: Seq<Seq<char>>) -> Option<int>
    decreases u32::MAX - n,
{
    if n < 0 || n >= u32::MAX {
        None
    } else if !taken.contains(wlan_name(n as nat)) {
        Some(n)
    } else {
        next_free(n + 1, taken)
    }
}

/// The (name, device) pairs for the default WLANs of `devices`, in device
/// order: each wanting device gets the next free `wlan<k>`, counting on
/// from `n` past the names taken so far.
pub open spec fn auto_wlans(
    devices: Seq<String>,
    interfaces: Seq<InterfaceInfo>,
    m: Map<String, InterfaceConfig>,
    taken: Seq<Seq<char>>,
    n: int,
) -> Seq<(Seq<char>, Seq<char>)>
    decreases devices.len(),
{
    if devices.len() == 0 {
        Seq::empty()
    } else if !wants_auto_wlan(devices[0], interfaces, m) {
        auto_wlans(devices.drop_first(), interfaces, m, taken, n)
    } else {
        match next_free(n, taken) {
            Some(k) => seq![(wlan_name(k as nat), devices[0]@)] + auto_wlans(
                devices.drop_first(),
                interfaces,
                m,
                taken.push(wlan_name(k as nat)),
                k + 1,
            ),
            None => auto_wlans(devices.drop_first(), interfaces, m, taken, n),
        }
    }
}

/// The names of a list of interfaces.
pub open spec fn names_of(interfaces: Seq<InterfaceInfo>) -> Seq<Seq<char>> {
    interfaces.map_values(|i: InterfaceInfo| i.name@)
}

/// The views of (name, device) pairs.
pub open spec fn pairs_view(v: Seq<(String, String)>) -> Seq<(Seq<char>, Seq<char>)> {
    v.map_values(|p: (String, String)| (p.0@, p.1@))
}

/// Whether `name` is among `taken`.
fn is_taken(taken: &Vec<String>, name: &String) -> (r: bool)
    ensures
        r == taken@.map_values(|s: String| s@).contains(name@),
{
    let ghost t = taken@.map_values(|s: String| s@);
    let mut i: usize = 0;
    while i < taken.len()
        invariant
            0 <= i <= taken@.len(),
            t == taken@.map_values(|s: String| s@),
            forall|j: int| 0 <= j < i ==> t[j] != name@,
        decreases taken@.len() - i,
    {
        if str_eq(taken[i].as_str(), name.as_str()) {
            assert(t[i as int] == name@);
            return true;
        }
        i = i + 1;
    }
    false
}

/// `wlan<n>`.
fn wlan_name_exec(n: u32) -> (r: String)
    ensures
        r@ == wlan_name(n as nat),
{
    let mut s = String::new();
    append_str(&mut s, "wlan");
    push_decimal(&mut s, n as u64);
    proof {
        reveal_strlit("wlan");
    }
    assert(s@ =~= wlan_name(n as nat));
    s
}

/// Whether an existing WLAN interface has the device as its parent.
fn has_wlan_on_exec(device: &String, interfaces: &Vec<InterfaceInfo>) -> (r: bool)
    ensures
        r == has_wlan_on(interfaces@, device@),
{
    let mut i: usize = 0;
    while i < interfaces.len()
        invariant
            0 <= i <= interfaces@.len(),
            forall|j: int|
                0 <= j < i ==> !(#[trigger] interfaces@[j].interface_type == InterfaceType::Wlan
                    && opt_view(interfaces@[j].parent) == Some(device@)),
        decreases interfaces@.len() - i,
    {
        let it = &interfaces[i];
        let on = match &it.parent {
            Some(p) => str_eq(p.as_str(), device.as_str()),
            None => false,
        };
        if it.interface_type == InterfaceType::Wlan && on {
            assert(interfaces@[i as int].interface_type == InterfaceType::Wlan);
            return true;
        }
        i = i + 1;
    }
    false
}

/// Whether the configuration creates a WLAN on the device.
fn configured_wlan_on_exec(device: &String, config: &DaemonConfig) -> (r: bool)
    ensures
        r == configured_wlan_on(config.interface@, device@),
{
    let entries = settings_entries(&config.interface);
    let ghost m = config.interface@;
    let mut j: usize = 0;
    while j < entries.len()
        invariant
            0 <= j <= entries@.len(),
            m == config.interface@,
            forall|i: int|
                0 <= i < entries@.len() ==> m.contains_key(*(#[trigger] entries@[i]).0)
                    && m[*entries@[i].0] == *entries@[i].1,
            forall|x: int|
                0 <= x < j ==> !((#[trigger] entries@[x]).1.creation matches Some(
                    LinkOptions::Wlan { parent, .. },
                ) && parent@ == device@),
        decreases entries@.len() - j,
    {
        let on = match &entries[j].1.creation {
            Some(LinkOptions::Wlan { parent, .. }) => str_eq(parent.as_str(), device.as_str()),
            _ => false,
        };
        if on {
            assert(m.contains_key(*entries@[j as int].0));
            return true;
        }
        j = j + 1;
    }
    proof {
        if configured_wlan_on(m, device@) {
            let k = choose|k: String| #[trigger]
                m.contains_key(k) && (m[k].creation matches Some(LinkOptions::Wlan { parent, .. })
                    && parent@ == device@);
            let x = choose|x: int| 0 <= x < entries@.len() && *entries@[x].0 == k;
            assert(entries@[x].1.creation == m[k].creation);
        }
    }
    false
}

/// Whether a device gets a default WLAN.
fn wants_auto_wlan_exec(
    device: &String,
    interfaces: &Vec<InterfaceInfo>,
    config: &DaemonConfig,
) -> (r: bool)
    ensures
        r == wants_auto_wlan(*device, interfaces@, config.interface@),
{
    if has_wlan_on_exec(device, interfaces) || configured_wlan_on_exec(device, config) {
        return false;
    }
    match settings_get(&config.interface, device) {
        Some(c) => c.create_wlan && c.wlan.is_none(),
        None => true,
    }
}

/// The default WLANs to create: in device order, each wireless device that
/// has no WLAN yet, is not the parent of a configured WLAN, and whose own
/// settings neither turn automatic creation off nor give WLAN parameters,
/// paired with the next `wlan<k>` that no interface has (k counting up from
/// 0 across devices).
pub fn plan_auto_wlans(
    devices: &Vec<String>,
    interfaces: &Vec<InterfaceInfo>,
    config: &DaemonConfig,
) -> (r: Vec<(String, String)>)
    ensures
        pairs_view(r@) == auto_wlans(devices@, interfaces@, config.interface@, names_of(interfaces@), 0),
{
    let mut taken: Vec<String> = Vec::new();
    let mut i: usize = 0;
    while i < interfaces.len()
        invariant
            0 <= i <= interfaces@.len(),
            taken@.map_values(|s: String| s@) == names_of(interfaces@.take(i as int)),
        decreases interfaces@.len() - i,
    {
        let ghost prev = taken@;
        taken.push(interfaces[i].name.clone());
        proof {
            assert(taken@ == prev.push(interfaces@[i as int].name));
            assert(interfaces@.take(i + 1) =~= interfaces@.take(i as int).push(interfaces@[i as int]));
            assert(taken@.map_values(|s: String| s@) =~= prev.map_values(|s: String| s@).push(
                interfaces@[i as int].name@,
            ));
            assert(names_of(interfaces@.take(i + 1)) =~= names_of(interfaces@.take(i as int)).push(
                interfaces@[i as int].name@,
            ));
        }
        i = i + 1;
    }
    assert(interfaces@.take(interfaces@.len() as int) =~= interfaces@);
    let ghost whole = auto_wlans(devices@, interfaces@, config.interface@, names_of(interfaces@), 0);
    let mut out: Vec<(String, String)> = Vec::new();
    let mut next: u32 = 0;
    let mut d: usize = 0;
    assert(devices@.skip(0) =~= devices@);
    while d < devices.len()
        invariant
            0 <= d <= devices@.len(),
            whole == pairs_view(out@) + auto_wlans(
                devices@.skip(d as int),
                interfaces@,
                config.interface@,
                taken@.map_values(|s: String| s@),
                next as int,
            ),
        decreases devices@.len() - d,
    {
        let ghost rest = devices@.skip(d as int);
        let ghost tv = taken@.map_values(|s: String| s@);
        assert(rest[0] == devices@[d as int]);
        assert(rest.drop_first() =~= devices@.skip(d + 1));
        if wants_auto_wlan_exec(&devices[d], interfaces, config) {
            let mut k: u32 = next;
            let mut done = false;
            while !done && k < u32::MAX
                invariant
                    next <= k <= u32::MAX,
                    tv == taken@.map_values(|s: String| s@),
                    next_free(next as int, tv) == (if done {
                        Some(k as int)
                    } else {
                        next_free(k as int, tv)
                    }),
                    done ==> k < u32::MAX,
                decreases u32::MAX - k + (if done {
                    0int
                } else {
                    1int
                }),
            {
                let candidate = wlan_name_exec(k);
                if !is_taken(&taken, &candidate) {
                    done = true;
                } else {
                    k = k + 1;
                }
            }
            if done {
                let name = wlan_name_exec(k);
                let ghost nv = name@;
                let ghost before = out@;
                out.push((name.clone(), devices[d].clone()));
                taken.push(name);
                assert(taken@.map_values(|s: String| s@) =~= tv.push(nv));
                next = k + 1;
                assert(pairs_view(out@) =~= pairs_view(before) + seq![(nv, devices@[d as int]@)]);
                assert(whole =~= pairs_view(out@) + auto_wlans(
                    devices@.skip(d + 1),
                    interfaces@,
                    config.interface@,
                    taken@.map_values(|s: String| s@),
                    next as int,
                ));
            }
        }
        d = d + 1;
    }
    assert(devices@.skip(devices@.len() as int) =~= Seq::<String>::empty());
    assert(pairs_view(out@) + Seq::<(Seq<char>, Seq<char>)>::empty() =~= pairs_view(out@));
    out
}

/// One round of recreating persisted logical links, from entry `i` on:
/// an entry whose name exists already (beforehand or created earlier in the
/// round) is skipped; otherwise `created[i]` says whether creating it
/// succeeded. Gives the entries to try again, in order, and whether the
/// round created anything.
pub open spec fn restore_from(
    p: Seq<(String, LinkOptions)>,
    names: Seq<Seq<char>>,
    created: Seq<bool>,
    i: int,
) -> (Seq<(String, LinkOptions)>, bool)
    decreases p.len() - i,
{
    if i < 0 || i >= p.len() {
        (Seq::empty(), false)
    } else if names.contains(p[i].0@) {
        restore_from(p, names, created, i + 1)
    } else if i < created.len() && created[i] {
        (restore_from(p, names.push(p[i].0@), created, i + 1).0, true)
    } else {
        let r = restore_from(p, names, created, i + 1);
        (seq![p[i]] + r.0, r.1)
    }
}

/// The outcome of one round of recreating the persisted logical links
/// `pending` (name and creation parameters, in configuration order), where
/// `existing` are the interfaces present and `created[i]` is whether
/// creating `pending[i]` succeeded: the entries deferred to the next round
/// (those not created, in order), and whether another round runs, which is
/// when something was deferred and something was created.
pub fn restore_round(
    pending: Vec<(String, LinkOptions)>,
    existing: &Vec<String>,
    created: &Vec<bool>,
) -> (r: (Vec<(String, LinkOptions)>, bool))
    ensures
        r.0@ == restore_from(pending@, existing@.map_values(|s: String| s@), created@, 0).0,
        r.1 == (r.0@.len() > 0 && restore_from(
            pending@,
            existing@.map_values(|s: String| s@),
            created@,
            0,
        ).1),
{
    let ghost whole = restore_from(pending@, existing@.map_values(|s: String| s@), created@, 0);
    let ghost all = pending@;
    let mut names: Vec<String> = Vec::new();
    let mut k: usize = 0;
    while k < existing.len()
        invariant
            0 <= k <= existing@.len(),
            names@ == existing@.take(k as int),
        decreases existing@.len() - k,
    {
        names.push(existing[k].clone());
        k = k + 1;
        assert(names@ =~= existing@.take(k as int));
    }
    assert(existing@.take(existing@.len() as int) =~= existing@);
    let mut rest = pending;
    let total = rest.len();
    let mut deferred: Vec<(String, LinkOptions)> = Vec::new();
    let mut progress = false;
    let mut i: usize = 0;
    while rest.len() > 0
        invariant
            0 <= i <= all.len(),
            rest@ == all.skip(i as int),
            i + rest@.len() == all.len(),
            all.len() == total,
            whole.0 == deferred@ + restore_from(
                all,
                names@.map_values(|s: String| s@),
                created@,
                i as int,
            ).0,
            whole.1 == (progress || restore_from(
                all,
                names@.map_values(|s: String| s@),
                created@,
                i as int,
            ).1),
        decreases rest@.len(),
    {
        let e = rest.remove(0);
        let ghost nv = names@.map_values(|s: String| s@);
        assert(e == all[i as int]);
        assert(rest@ =~= all.skip(i + 1));
        if is_taken(&names, &e.0) {
        } else if i < created.len() && created[i] {
            let ghost before = names@;
            names.push(e.0);
            assert(names@.map_values(|s: String| s@) =~= nv.push(all[i as int].0@));
            progress = true;
        } else {
            let ghost before = deferred@;
            deferred.push(e);
            assert(deferred@ =~= before + seq![all[i as int]]);
            assert(whole.0 =~= deferred@ + restore_from(all, nv, created@, i + 1).0);
        }
        i = i + 1;
    }
    assert(restore_from(all, names@.map_values(|s: String| s@), created@, i as int).0 =~= Seq::<
        (String, LinkOptions),
    >::empty());
    assert(deferred@ =~= whole.0);
    let again = deferred.len() > 0 && progress;
    (deferred, again)
}

} // verus!
