//! The known networks of one SSID, and the choice of the access point to
//! connect to.
use vstd::prelude::*;

use vstd::utf8::encode_utf8;

use crate::error::WifiError;
use crate::mac::MacAddr;
use crate::network::{KnownNetwork, KnownNetworkView, ScanResult};
use crate::security::Security;
use crate::status::opt_view;
use crate::ssid::utf8_len_within;
use crate::text::{copy_string, str_eq};

verus! {

/// The shortest WPA-PSK passphrase, in bytes.
pub const PSK_MIN_LEN: usize = 8;

/// The longest WPA-PSK passphrase, in bytes.
pub const PSK_MAX_LEN: usize = 63;

/// Whether the credentials given for a registration are usable: a PSK
/// network needs a passphrase of 8 to 63 bytes, an EAP network an identity.
pub open spec fn registration_error(
    security: Security,
    password: Option<Seq<char>>,
    identity: Option<Seq<char>>,
) -> Option<WifiErrorKind> {
    match security {
        Security::Psk => match password {
            None => Some(WifiErrorKind::InvalidPasswordLength),
            Some(p) => if encode_utf8(p).len() < 8 || encode_utf8(p).len() > 63 {
                Some(WifiErrorKind::InvalidPasswordLength)
            } else {
                None
            },
        },
        Security::Eap => if identity is None {
            Some(WifiErrorKind::EapIdentityRequired)
        } else {
            None
        },
        _ => None,
    }
}

/// The kinds of refusal of a registration.
pub enum WifiErrorKind {
    InvalidPasswordLength,
    EapIdentityRequired,
}

/// Whether a result is the refusal of the given kind.
pub open spec fn refused_with(r: Result<(), WifiError>, kind: WifiErrorKind) -> bool {
    match kind {
        WifiErrorKind::InvalidPasswordLength => r matches Err(
            WifiError::InvalidPasswordLength { min, max },
        ) && min == 8 && max == 63,
        WifiErrorKind::EapIdentityRequired => r matches Err(WifiError::NotSupported(m)) && m@
            == "EAP requires identity during registration"@,
    }
}

/// Checks the credentials of a network before it is registered.
pub fn validate_registration(
    security: Security,
    password: &Option<String>,
    identity: &Option<String>,
) -> (r: Result<(), WifiError>)
    ensures
        match registration_error(security, opt_view(*password), opt_view(*identity)) {
            Some(kind) => refused_with(r, kind),
            None => r is Ok,
        },
{
    match security {
        Security::Psk => {
            match password {
                None => {
                    return Err(WifiError::InvalidPasswordLength { min: PSK_MIN_LEN, max: PSK_MAX_LEN });
                },
                Some(p) => {
                    if !utf8_len_within(p.as_str(), PSK_MIN_LEN, PSK_MAX_LEN) {
                        return Err(
                            WifiError::InvalidPasswordLength { min: PSK_MIN_LEN, max: PSK_MAX_LEN },
                        );
                    }
                },
            }
        },
        Security::Eap => {
            if identity.is_none() {
                return Err(
                    WifiError::NotSupported("EAP requires identity during registration".to_owned()),
                );
            }
        },
        _ => {},
    }
    Ok(())
}


/// A copy of a known network.
pub fn copy_known(k: &KnownNetwork) -> (r: KnownNetwork)
    ensures
        r@ == k@,
{
    KnownNetwork {
        id: k.id,
        priority: k.priority,
        hidden: k.hidden,
        security: k.security,
        state: k.state,
        ssid: copy_string(&k.ssid),
        bssid: k.bssid,
        password: match &k.password {
            Some(p) => Some(copy_string(p)),
            None => None,
        },
        identity: match &k.identity {
            Some(i) => Some(copy_string(i)),
            None => None,
        },
    }
}

/// The known networks registered for one SSID: one that applies to any
/// access point, and one per locked BSSID.
#[derive(Debug, Clone)]
pub struct KnownSsidEntry {
    pub no_bssid: Option<KnownNetwork>,
    pub by_bssid: Vec<(MacAddr, KnownNetwork)>,
}

/// The index of the first entry locked to `mac`.
pub open spec fn bssid_index(s: Seq<(MacAddr, KnownNetwork)>, mac: MacAddr) -> Option<int>
    decreases s.len(),
{
    if s.len() == 0 {
        None
    } else {
        match bssid_index(s.drop_last(), mac) {
            Some(k) => Some(k),
            None => if s.last().0 == mac {
                Some(s.len() - 1)
            } else {
                None
            },
        }
    }
}

/// `bssid_index` is the first entry locked to `mac`.
pub proof fn lemma_bssid_index(s: Seq<(MacAddr, KnownNetwork)>, mac: MacAddr)
    ensures
        match bssid_index(s, mac) {
            Some(k) => 0 <= k < s.len() && s[k].0 == mac && forall|j: int|
                0 <= j < k ==> #[trigger] s[j].0 != mac,
            None => forall|j: int| 0 <= j < s.len() ==> #[trigger] s[j].0 != mac,
        },
    decreases s.len(),
{
    if s.len() > 0 {
        lemma_bssid_index(s.drop_last(), mac);
        assert forall|j: int| 0 <= j < s.len() - 1 implies s.drop_last()[j] == s[j] by {}
    }
}

proof fn lemma_bssid_index_first(s: Seq<(MacAddr, KnownNetwork)>, mac: MacAddr, k: int)
    requires
        0 <= k <= s.len(),
        k < s.len() ==> s[k].0 == mac,
        forall|j: int| 0 <= j < k ==> #[trigger] s[j].0 != mac,
    ensures
        bssid_index(s, mac) == (if k < s.len() {
            Some(k)
        } else {
            None::<int>
        }),
{
    lemma_bssid_index(s, mac);
    match bssid_index(s, mac) {
        Some(m) => {
            if m < k {
                assert(s[m].0 != mac);
            }
            if k < m {
                assert(s[k].0 == mac);
            }
        },
        None => {
            if k < s.len() {
                assert(s[k].0 != mac);
            }
        },
    }
}

/// Whether scan result `i` is a candidate: it shows the SSID and its BSSID
/// is registered.
pub open spec fn is_candidate(
    scans: Seq<ScanResult>,
    by_bssid: Seq<(MacAddr, KnownNetwork)>,
    ssid: Seq<char>,
    i: int,
) -> bool {
    &&& 0 <= i < scans.len()
    &&& scans[i].ssid@ == ssid
    &&& bssid_index(by_bssid, scans[i].bssid) is Some
}

/// Whether candidate `i` is the best: the strongest signal, and the first
/// one in scan order among equally strong ones.
pub open spec fn is_best(
    scans: Seq<ScanResult>,
    by_bssid: Seq<(MacAddr, KnownNetwork)>,
    ssid: Seq<char>,
    i: int,
) -> bool {
    &&& is_candidate(scans, by_bssid, ssid, i)
    &&& forall|j: int|
        #[trigger] is_candidate(scans, by_bssid, ssid, j) ==> scans[j].signal < scans[i].signal || (
        scans[j].signal == scans[i].signal && i <= j)
}

/// The number of scan results that show the SSID.
pub open spec fn ssid_count(scans: Seq<ScanResult>, ssid: Seq<char>) -> nat
    decreases scans.len(),
{
    if scans.len() == 0 {
        0
    } else {
        ssid_count(scans.drop_last(), ssid) + (if scans.last().ssid@ == ssid {
            1nat
        } else {
            0nat
        })
    }
}

/// The index of the first scan result that shows the SSID.
pub open spec fn first_ssid_index(scans: Seq<ScanResult>, ssid: Seq<char>) -> int
    decreases scans.len(),
{
    if scans.len() == 0 {
        0
    } else if ssid_count(scans.drop_last(), ssid) > 0 {
        first_ssid_index(scans.drop_last(), ssid)
    } else {
        scans.len() - 1
    }
}

/// Whether a result is the refusal `KnownNetworkNotFound` for the SSID and
/// BSSID.
pub open spec fn not_found(
    r: Result<(MacAddr, KnownNetwork), WifiError>,
    ssid: Seq<char>,
    bssid: Option<MacAddr>,
) -> bool {
    r matches Err(WifiError::KnownNetworkNotFound { ssid: s, bssid: b }) && s@ == ssid && b == bssid
}

/// Whether a result is the refusal `SsidUnavailable` for the SSID.
pub open spec fn unavailable(r: Result<(MacAddr, KnownNetwork), WifiError>, ssid: Seq<char>) -> bool {
    r matches Err(WifiError::SsidUnavailable { ssid: s }) && s@ == ssid
}

/// Whether a result is the refusal `BssidRequired` for the SSID.
pub open spec fn bssid_required(r: Result<(MacAddr, KnownNetwork), WifiError>, ssid: Seq<char>) -> bool {
    r matches Err(WifiError::BssidRequired { ssid: s }) && s@ == ssid
}

proof fn lemma_ssid_count_step(scans: Seq<ScanResult>, ssid: Seq<char>, i: int)
    requires
        0 <= i < scans.len(),
    ensures
        ssid_count(scans.take(i + 1), ssid) == ssid_count(scans.take(i), ssid) + (if scans[i].ssid@
            == ssid {
            1nat
        } else {
            0nat
        }),
        first_ssid_index(scans.take(i + 1), ssid) == (if ssid_count(scans.take(i), ssid) > 0 {
            first_ssid_index(scans.take(i), ssid)
        } else {
            i
        }),
{
    assert(scans.take(i + 1).drop_last() =~= scans.take(i));
}

proof fn lemma_first_ssid_index(scans: Seq<ScanResult>, ssid: Seq<char>)
    requires
        ssid_count(scans, ssid) > 0,
    ensures
        0 <= first_ssid_index(scans, ssid) < scans.len(),
        scans[first_ssid_index(scans, ssid)].ssid@ == ssid,
    decreases scans.len(),
{
    if ssid_count(scans.drop_last(), ssid) > 0 {
        lemma_first_ssid_index(scans.drop_last(), ssid);
    }
}

proof fn lemma_ssid_count_zero(scans: Seq<ScanResult>, ssid: Seq<char>)
    ensures
        ssid_count(scans, ssid) == 0 <==> forall|j: int| 0 <= j < scans.len() ==> #[trigger] scans[j].ssid@ != ssid,
    decreases scans.len(),
{
    if scans.len() > 0 {
        lemma_ssid_count_zero(scans.drop_last(), ssid);
        assert forall|j: int| 0 <= j < scans.len() - 1 implies scans.drop_last()[j] == scans[j] by {}
        if ssid_count(scans, ssid) == 0 {
            assert forall|j: int| 0 <= j < scans.len() implies #[trigger] scans[j].ssid@ != ssid by {
                if j < scans.len() - 1 {
                    assert(scans.drop_last()[j] == scans[j]);
                }
            }
        } else if ssid_count(scans.drop_last(), ssid) > 0 {
            let w = choose|j: int| 0 <= j < scans.len() - 1 && #[trigger] scans.drop_last()[j].ssid@ == ssid;
            assert(scans[w] == scans.drop_last()[w]);
        } else {
            assert(scans[scans.len() - 1].ssid@ == ssid);
        }
    }
}

impl KnownSsidEntry {
    /// The network locked to `mac`, if any.
    pub fn get(&self, mac: MacAddr) -> (r: Option<KnownNetwork>)
        ensures
            match bssid_index(self.by_bssid@, mac) {
                Some(k) => r matches Some(n) && n@ == self.by_bssid@[k].1@,
                None => r is None,
            },
    {
        let mut i: usize = 0;
        while i < self.by_bssid.len()
            invariant
                0 <= i <= self.by_bssid@.len(),
                forall|j: int| 0 <= j < i ==> #[trigger] self.by_bssid@[j].0 != mac,
            decreases self.by_bssid@.len() - i,
        {
            if self.by_bssid[i].0 == mac {
                proof {
                    lemma_bssid_index_first(self.by_bssid@, mac, i as int);
                }
                return Some(copy_known(&self.by_bssid[i].1));
            }
            i = i + 1;
        }
        proof {
            lemma_bssid_index_first(self.by_bssid@, mac, self.by_bssid@.len() as int);
        }
        None
    }
    /// The entries after storing `known` under `mac`: the entry locked to
    /// `mac` replaced, or appended.
    pub open spec fn stored(s: Seq<(MacAddr, KnownNetwork)>, mac: MacAddr, known: KnownNetwork) -> Seq<
        (MacAddr, KnownNetwork),
    > {
        match bssid_index(s, mac) {
            Some(k) => s.update(k, (mac, known)),
            None => s.push((mac, known)),
        }
    }

    /// Registers a network: under its BSSID when it is locked to one, else
    /// as the network for any access point. Returns the network it replaces.
    pub fn register(&mut self, known: KnownNetwork) -> (r: Option<KnownNetwork>)
        ensures
            match known.bssid {
                Some(mac) => {
                    &&& final(self).by_bssid@ == Self::stored(old(self).by_bssid@, mac, known)
                    &&& final(self).no_bssid == old(self).no_bssid
                    &&& match bssid_index(old(self).by_bssid@, mac) {
                        Some(k) => r matches Some(p) && p@ == old(self).by_bssid@[k].1@,
                        None => r is None,
                    }
                    &&& bssid_index(final(self).by_bssid@, mac) matches Some(k) && final(self).by_bssid@[k].1 == known
                },
                None => {
                    &&& final(self).no_bssid == Some(known)
                    &&& final(self).by_bssid@ == old(self).by_bssid@
                    &&& r == old(self).no_bssid
                },
            },
    {
        match known.bssid {
            Some(mac) => {
                let mut i: usize = 0;
                while i < self.by_bssid.len()
                    invariant
                        0 <= i <= self.by_bssid@.len(),
                        self.by_bssid@ == old(self).by_bssid@,
                        self.no_bssid == old(self).no_bssid,
                        known.bssid == Some(mac),
                        forall|j: int| 0 <= j < i ==> #[trigger] self.by_bssid@[j].0 != mac,
                    decreases self.by_bssid@.len() - i,
                {
                    if self.by_bssid[i].0 == mac {
                        proof {
                            lemma_bssid_index_first(self.by_bssid@, mac, i as int);
                        }
                        let prev = copy_known(&self.by_bssid[i].1);
                        self.by_bssid.set(i, (mac, known));
                        proof {
                            let u = self.by_bssid@;
                            assert forall|j: int| 0 <= j < i implies #[trigger] u[j].0 != mac by {
                                assert(u[j] == old(self).by_bssid@[j]);
                            }
                            lemma_bssid_index_first(u, mac, i as int);
                        }
                        return Some(prev);
                    }
                    i = i + 1;
                }
                proof {
                    lemma_bssid_index_first(self.by_bssid@, mac, self.by_bssid@.len() as int);
                }
                self.by_bssid.push((mac, known));
                proof {
                    let u = self.by_bssid@;
                    assert forall|j: int| 0 <= j < u.len() - 1 implies #[trigger] u[j].0 != mac by {
                        assert(u[j] == old(self).by_bssid@[j]);
                    }
                    lemma_bssid_index_first(u, mac, u.len() - 1);
                }
                None
            },
            None => {
                let prev = self.no_bssid.take();
                self.no_bssid = Some(known);
                prev
            },
        }
    }

    /// Removes the network registered under the BSSID, or the one for any
    /// access point, and returns it.
    pub fn remove(&mut self, bssid: Option<MacAddr>) -> (r: Option<KnownNetwork>)
        ensures
            match bssid {
                Some(mac) => final(self).no_bssid == old(self).no_bssid && match bssid_index(
                    old(self).by_bssid@,
                    mac,
                ) {
                    Some(k) => r == Some(old(self).by_bssid@[k].1) && final(self).by_bssid@ == old(self).by_bssid@.remove(k),
                    None => r is None && final(self).by_bssid@ == old(self).by_bssid@,
                },
                None => r == old(self).no_bssid && final(self).no_bssid is None && final(self).by_bssid@ == old(self).by_bssid@,
            },
    {
        match bssid {
            Some(mac) => {
                let mut i: usize = 0;
                while i < self.by_bssid.len()
                    invariant
                        0 <= i <= self.by_bssid@.len(),
                        self.by_bssid@ == old(self).by_bssid@,
                        self.no_bssid == old(self).no_bssid,
                        bssid == Some(mac),
                        forall|j: int| 0 <= j < i ==> #[trigger] self.by_bssid@[j].0 != mac,
                    decreases self.by_bssid@.len() - i,
                {
                    if self.by_bssid[i].0 == mac {
                        proof {
                            lemma_bssid_index_first(self.by_bssid@, mac, i as int);
                        }
                        let ghost before = self.by_bssid@;
                        let p = self.by_bssid.remove(i);
                        assert(p == before[i as int]);
                        return Some(p.1);
                    }
                    i = i + 1;
                }
                proof {
                    lemma_bssid_index_first(self.by_bssid@, mac, self.by_bssid@.len() as int);
                }
                None
            },
            None => self.no_bssid.take(),
        }
    }

    /// Whether no network is registered for the SSID any more.
    pub fn is_empty(&self) -> (r: bool)
        ensures
            r == (self.no_bssid is None && self.by_bssid@.len() == 0),
    {
        self.no_bssid.is_none() && self.by_bssid.len() == 0
    }
}

/// Chooses the access point to connect to for a known SSID.
///
/// With a requested BSSID, the network locked to it. Without one, among the
/// scan results for the SSID: the only one, when no BSSID is registered (with
/// the network for any access point, locked to it); else the strongest
/// registered one, the first in scan order among equally strong ones.
pub fn select_known_candidate(
    entry: Option<&KnownSsidEntry>,
    scan_results: &Vec<ScanResult>,
    ssid: &str,
    requested_bssid: Option<MacAddr>,
) -> (r: Result<(MacAddr, KnownNetwork), WifiError>)
    ensures
        entry is None ==> not_found(r, ssid@, requested_bssid),
        entry matches Some(e) ==> (match requested_bssid {
            Some(mac) => match bssid_index(e.by_bssid@, mac) {
                Some(k) => r matches Ok(v) && v.0 == mac && v.1@ == e.by_bssid@[k].1@,
                None => not_found(r, ssid@, Some(mac)),
            },
            None => {
                let scans = scan_results@;
                let count = ssid_count(scans, ssid@);
                if count == 0 {
                    unavailable(r, ssid@)
                } else if e.by_bssid@.len() == 0 {
                    if count == 1 {
                        match e.no_bssid {
                            Some(n) => {
                                let b = scans[first_ssid_index(scans, ssid@)].bssid;
                                r matches Ok(v) && v.0 == b && v.1@ == (KnownNetworkView {
                                    bssid: Some(b@),
                                    ..n@
                                })
                            },
                            None => not_found(r, ssid@, None),
                        }
                    } else {
                        bssid_required(r, ssid@)
                    }
                } else if exists|i: int| is_candidate(scans, e.by_bssid@, ssid@, i) {
                    exists|i: int|
                        is_best(scans, e.by_bssid@, ssid@, i) && (r matches Ok(v) && v.0
                            == scans[i].bssid && v.1@ == e.by_bssid@[bssid_index(
                            e.by_bssid@,
                            scans[i].bssid,
                        )->0].1@)
                } else {
                    unavailable(r, ssid@)
                }
            },
        }),
{
    let e = match entry {
        None => {
            return Err(WifiError::KnownNetworkNotFound { ssid: ssid.to_owned(), bssid: requested_bssid });
        },
        Some(e) => e,
    };
    match requested_bssid {
        Some(mac) => {
            return match e.get(mac) {
                Some(n) => Ok((mac, n)),
                None => Err(WifiError::KnownNetworkNotFound { ssid: ssid.to_owned(), bssid: Some(mac) }),
            };
        },
        None => {},
    }
    let ghost scans = scan_results@;
    // Count the scan results for the SSID, and find the strongest
    // registered one.
    let mut count: usize = 0;
    let mut first: usize = 0;
    let mut best: Option<(i32, usize, MacAddr, KnownNetwork)> = None;
    let mut i: usize = 0;
    while i < scan_results.len()
        invariant
            0 <= i <= scans.len(),
            scans == scan_results@,
            entry == Some(e),
            requested_bssid is None,
            count == ssid_count(scans.take(i as int), ssid@),
            count > 0 ==> first == first_ssid_index(scans.take(i as int), ssid@),
            count <= i,
            match best {
                None => forall|j: int| 0 <= j < i ==> !#[trigger] is_candidate(scans, e.by_bssid@, ssid@, j),
                Some(b) => {
                    &&& 0 <= b.1 < i
                    &&& is_candidate(scans, e.by_bssid@, ssid@, b.1 as int)
                    &&& b.0 == scans[b.1 as int].signal
                    &&& b.2 == scans[b.1 as int].bssid
                    &&& b.3@ == e.by_bssid@[bssid_index(e.by_bssid@, b.2)->0].1@
                    &&& forall|j: int| 0 <= j < i && #[trigger] is_candidate(scans, e.by_bssid@, ssid@, j)
                        ==> scans[j].signal < b.0 || (scans[j].signal == b.0 && b.1 <= j)
                },
            },
        decreases scans.len() - i,
    {
        let scan = &scan_results[i];
        proof {
            lemma_ssid_count_step(scans, ssid@, i as int);
        }
        if str_eq(scan.ssid.as_str(), ssid) {
            if count == 0 {
                first = i;
            }
            count = count + 1;
            let known = e.get(scan.bssid);
            match known {
                Some(k) => {
                    let keep = match &best {
                        Some(b) => b.0 > scan.signal || (b.0 == scan.signal && b.1 <= i),
                        None => false,
                    };
                    if !keep {
                        best = Some((scan.signal, i, scan.bssid, k));
                    }
                },
                None => {},
            }
        }
        i = i + 1;
    }
    proof {
        assert(scans.take(scans.len() as int) =~= scans);
    }
    if count == 0 {
        proof {
            lemma_ssid_count_zero(scans, ssid@);
        }
        return Err(WifiError::SsidUnavailable { ssid: ssid.to_owned() });
    }
    if e.by_bssid.len() == 0 {
        if count == 1 {
            return match &e.no_bssid {
                Some(n) => {
                    proof {
                        lemma_first_ssid_index(scans, ssid@);
                    }
                    let bssid = scan_results[first].bssid;
                    let mut known = copy_known(n);
                    known.bssid = Some(bssid);
                    Ok((bssid, known))
                },
                None => Err(WifiError::KnownNetworkNotFound { ssid: ssid.to_owned(), bssid: None }),
            };
        }
        return Err(WifiError::BssidRequired { ssid: ssid.to_owned() });
    }
    match best {
        Some(b) => {
            proof {
                assert(is_best(scans, e.by_bssid@, ssid@, b.1 as int));
            }
            Ok((b.2, b.3))
        },
        None => Err(WifiError::SsidUnavailable { ssid: ssid.to_owned() }),
    }
}


/// A network stored under a BSSID is what a later lookup of that BSSID
/// finds, so that removing it gives it back.
pub proof fn lemma_stored_then_found(s: Seq<(MacAddr, KnownNetwork)>, mac: MacAddr, known: KnownNetwork)
    ensures
        bssid_index(KnownSsidEntry::stored(s, mac, known), mac) matches Some(k)
            && KnownSsidEntry::stored(s, mac, known)[k] == (mac, known),
{
    lemma_bssid_index(s, mac);
    let u = KnownSsidEntry::stored(s, mac, known);
    match bssid_index(s, mac) {
        Some(k) => {
            assert forall|j: int| 0 <= j < k implies #[trigger] u[j].0 != mac by {
                assert(u[j] == s[j]);
            }
            lemma_bssid_index_first(u, mac, k);
        },
        None => {
            assert forall|j: int| 0 <= j < s.len() implies #[trigger] u[j].0 != mac by {
                assert(u[j] == s[j]);
            }
            lemma_bssid_index_first(u, mac, s.len() as int);
        },
    }
}

} // verus!
