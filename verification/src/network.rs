//! Known networks and scan results reported by wpa_supplicant.
use vstd::prelude::*;

use crate::mac::{mac_parse, MacAddr};
use crate::security::{security_from_flags, Security};
use crate::sort::{stable_sort_desc, stable_sorted_desc};
use crate::ssid::{ssid_text, unescape_bytes, unescape_chars};
use crate::status::opt_view;
use crate::text::{
    chars_eq_str, chars_of, contains, contains_exec, contains_str, parse_i32, parse_i32_exec,
    split_char, split_char_exec, string_of_range,
};

verus! {

// ---------------------------------------------------------------------------
// Known networks
// ---------------------------------------------------------------------------

/// State of a saved network.
#[derive(Debug, Clone, Copy, PartialEq, Eq, Hash, Structural)]
pub enum KnownNetworkState {
    /// Network is enabled for auto-connect
    Enabled,
    /// Network is disabled
    Disabled,
    /// Network is disconnected / not connected
    Disconnected,
    /// Currently connected network
    Current,
}

/// The state that a `LIST_NETWORKS` flags field such as `[CURRENT]` gives.
pub open spec fn known_state_from_flags(flags: Seq<char>) -> KnownNetworkState {
    if contains(flags, "CURRENT"@) {
        KnownNetworkState::Current
    } else if contains(flags, "DISABLED"@) {
        KnownNetworkState::Disabled
    } else {
        KnownNetworkState::Enabled
    }
}

impl KnownNetworkState {
    /// `Enabled`, the state of a network without flags.
    pub fn default() -> (r: KnownNetworkState)
        ensures
            r == KnownNetworkState::Enabled,
    {
        KnownNetworkState::Enabled
    }

    /// Parses the flags field of a `LIST_NETWORKS` line.
    pub fn from_flags(flags: &str) -> (r: KnownNetworkState)
        ensures
            r == known_state_from_flags(flags@),
    {
        let f = chars_of(flags);
        if contains_str(&f, "CURRENT") {
            KnownNetworkState::Current
        } else if contains_str(&f, "DISABLED") {
            KnownNetworkState::Disabled
        } else {
            KnownNetworkState::Enabled
        }
    }
}

/// A saved network.
#[derive(Debug, Clone)]
pub struct KnownNetwork {
    /// Network ID assigned by wpa_supplicant.
    pub id: Option<i32>,
    /// Network priority (higher = preferred)
    pub priority: i32,
    /// Whether this is a hidden network
    pub hidden: bool,
    /// Security type
    pub security: Security,
    /// Network state
    pub state: KnownNetworkState,
    /// SSID
    pub ssid: String,
    /// BSSID (if configured)
    pub bssid: Option<MacAddr>,
    /// Credential for PSK networks
    pub password: Option<String>,
    /// Identity for EAP networks
    pub identity: Option<String>,
}

/// The content of a `KnownNetwork`, texts as character sequences.
pub struct KnownNetworkView {
    pub id: Option<i32>,
    pub priority: i32,
    pub hidden: bool,
    pub security: Security,
    pub state: KnownNetworkState,
    pub ssid: Seq<char>,
    pub bssid: Option<Seq<u8>>,
    pub password: Option<Seq<char>>,
    pub identity: Option<Seq<char>>,
}

pub open spec fn mac_opt_view(m: Option<MacAddr>) -> Option<Seq<u8>> {
    match m {
        Some(a) => Some(a@),
        None => None,
    }
}

impl View for KnownNetwork {
    type V = KnownNetworkView;

    open spec fn view(&self) -> KnownNetworkView {
        KnownNetworkView {
            id: self.id,
            priority: self.priority,
            hidden: self.hidden,
            security: self.security,
            state: self.state,
            ssid: self.ssid@,
            bssid: mac_opt_view(self.bssid),
            password: opt_view(self.password),
            identity: opt_view(self.identity),
        }
    }
}

/// What `KnownNetwork::parse` gives for a `LIST_NETWORKS` line
/// (`id<TAB>ssid<TAB>bssid<TAB>flags`).
pub open spec fn known_network_parse(line: Seq<char>) -> Option<KnownNetworkView> {
    let parts = split_char(line, '\t');
    if parts.len() < 3 || parse_i32(parts[0]) is None {
        None
    } else {
        Some(
            KnownNetworkView {
                id: parse_i32(parts[0]),
                priority: 0,
                hidden: false,
                security: Security::Unknown,
                state: if parts.len() >= 4 {
                    known_state_from_flags(parts[3])
                } else {
                    KnownNetworkState::Disconnected
                },
                ssid: ssid_text(unescape_bytes(parts[1])),
                bssid: if parts[2] == "any"@ {
                    None
                } else {
                    mac_parse(parts[2])
                },
                password: None,
                identity: None,
            },
        )
    }
}

impl KnownNetwork {
    /// Parses a line of the `LIST_NETWORKS` reply; header lines and lines
    /// with fewer than three fields or a non-numeric id give `None`.
    pub fn parse(line: &str) -> (r: Option<KnownNetwork>)
        ensures
            match r {
                Some(n) => known_network_parse(line@) == Some(n@),
                None => known_network_parse(line@) is None,
            },
    {
        let cs = chars_of(line);
        let parts = split_char_exec(&cs, '\t');
        if parts.len() < 3 {
            return None;
        }
        let (a0, b0) = parts[0];
        let (a1, b1) = parts[1];
        let (a2, b2) = parts[2];
        assert(split_char(cs@, '\t')[0] == cs@.subrange(a0 as int, b0 as int));
        assert(split_char(cs@, '\t')[1] == cs@.subrange(a1 as int, b1 as int));
        assert(split_char(cs@, '\t')[2] == cs@.subrange(a2 as int, b2 as int));
        let id = match parse_i32_exec(&cs, a0, b0) {
            Some(v) => v,
            None => {
                return None;
            },
        };
        let ssid_chars = crate::text::slice_vec(&cs, a1, b1);
        let ssid = unescape_chars(&ssid_chars);
        let field = crate::text::slice_vec(&cs, a2, b2);
        let bssid = if chars_eq_str(&field, "any") {
            None
        } else {
            let t = string_of_range(&cs, a2, b2);
            MacAddr::parse(t.as_str())
        };
        let state = if parts.len() >= 4 {
            let (a3, b3) = parts[3];
            assert(split_char(cs@, '\t')[3] == cs@.subrange(a3 as int, b3 as int));
            let flags = string_of_range(&cs, a3, b3);
            KnownNetworkState::from_flags(flags.as_str())
        } else {
            KnownNetworkState::Disconnected
        };
        let n = KnownNetwork {
            id: Some(id),
            priority: 0,
            hidden: false,
            security: Security::Unknown,
            state,
            ssid,
            bssid,
            password: None,
            identity: None,
        };
        Some(n)
    }

    /// Whether this is the network currently connected.
    pub fn is_current(&self) -> (r: bool)
        ensures
            r == (self.state == KnownNetworkState::Current),
    {
        matches!(self.state, KnownNetworkState::Current)
    }

    /// Whether the network is enabled (any state but `Disabled`).
    pub fn is_enabled(&self) -> (r: bool)
        ensures
            r == (self.state != KnownNetworkState::Disabled),
    {
        !matches!(self.state, KnownNetworkState::Disabled)
    }
}

// ---------------------------------------------------------------------------
// Scan flags
// ---------------------------------------------------------------------------

/// `str::to_uppercase`: the Unicode upper-case mapping of a text.
pub uninterp spec fn upper_text(s: Seq<char>) -> Seq<char>;

/// `str::to_lowercase`: the Unicode lower-case mapping of a text.
pub uninterp spec fn lower_text(s: Seq<char>) -> Seq<char>;

/// `str::to_uppercase`. Its result is a function of the text alone; the
/// Unicode case tables it applies are not restated here.
#[verifier::external_body]
fn to_uppercase(s: &str) -> (r: String)
    ensures
        r@ == upper_text(s@),
{
    s.to_uppercase()
}

/// `str::to_lowercase`. Its result is a function of the text alone; the
/// Unicode case tables it applies are not restated here.
#[verifier::external_body]
fn to_lowercase(s: &str) -> (r: String)
    ensures
        r@ == lower_text(s@),
{
    s.to_lowercase()
}

/// WiFi capability flags, one bit each.
#[derive(Debug, Clone, Copy, PartialEq, Eq, Structural)]
pub struct ScanFlags {
    bits: u32,
}

pub open spec fn flag_if(b: bool, bit: u32) -> u32 {
    if b {
        bit
    } else {
        0
    }
}

/// The flag bits that an upper-cased flags string such as
/// `[WPA2-PSK-CCMP][ESS]` sets.
pub open spec fn scan_flag_bits(u: Seq<char>) -> u32 {
    flag_if(contains(u, "WPA-"@), 1) | flag_if(contains(u, "WPA2-"@) || contains(u, "RSN-"@), 2)
        | flag_if(contains(u, "SAE"@), 4) | flag_if(contains(u, "WEP"@), 8) | flag_if(
        contains(u, "[ESS]"@),
        16,
    ) | flag_if(contains(u, "[IBSS]"@), 32) | flag_if(contains(u, "[WPS]"@), 64) | flag_if(
        contains(u, "[P2P]"@),
        128,
    ) | flag_if(contains(u, "EAP"@), 256) | flag_if(contains(u, "PSK"@), 512) | flag_if(
        contains(u, "CCMP"@),
        1024,
    ) | flag_if(contains(u, "TKIP"@), 2048)
}

fn flag_if_exec(b: bool, bit: u32) -> (r: u32)
    ensures
        r == flag_if(b, bit),
{
    if b {
        bit
    } else {
        0
    }
}

impl ScanFlags {
    pub const WPA: u32 = 1;
    pub const WPA2: u32 = 2;
    pub const WPA3: u32 = 4;
    pub const WEP: u32 = 8;
    pub const ESS: u32 = 16;
    pub const IBSS: u32 = 32;
    pub const WPS: u32 = 64;
    pub const P2P: u32 = 128;
    pub const ENTERPRISE: u32 = 256;
    pub const PERSONAL: u32 = 512;
    pub const CCMP: u32 = 1024;
    pub const TKIP: u32 = 2048;

    /// The set with no flag.
    pub fn empty() -> (r: ScanFlags)
        ensures
            r.bits() == 0,
    {
        ScanFlags { bits: 0 }
    }

    /// The set with no flag.
    pub fn default() -> (r: ScanFlags)
        ensures
            r.bits() == 0,
    {
        ScanFlags { bits: 0 }
    }

    /// The raw bits.
    pub closed spec fn spec_bits(&self) -> u32 {
        self.bits
    }

    /// The raw bits.
    #[verifier::when_used_as_spec(spec_bits)]
    pub fn bits(&self) -> (r: u32)
        ensures
            r == self.spec_bits(),
    {
        self.bits
    }

    /// Whether every bit of `flag` is set.
    pub fn contains(&self, flag: u32) -> (r: bool)
        ensures
            r == (self.bits() & flag == flag),
    {
        self.bits & flag == flag
    }

    /// The flags of an already upper-cased flags string.
    pub fn from_upper(upper: &str) -> (r: ScanFlags)
        ensures
            r.bits() == scan_flag_bits(upper@),
    {
        let u = chars_of(upper);
        let b = flag_if_exec(contains_str(&u, "WPA-"), 1) | flag_if_exec(
            contains_str(&u, "WPA2-") || contains_str(&u, "RSN-"),
            2,
        ) | flag_if_exec(contains_str(&u, "SAE"), 4) | flag_if_exec(contains_str(&u, "WEP"), 8)
            | flag_if_exec(contains_str(&u, "[ESS]"), 16) | flag_if_exec(
            contains_str(&u, "[IBSS]"),
            32,
        ) | flag_if_exec(contains_str(&u, "[WPS]"), 64) | flag_if_exec(
            contains_str(&u, "[P2P]"),
            128,
        ) | flag_if_exec(contains_str(&u, "EAP"), 256) | flag_if_exec(contains_str(&u, "PSK"), 512)
            | flag_if_exec(contains_str(&u, "CCMP"), 1024) | flag_if_exec(
            contains_str(&u, "TKIP"),
            2048,
        );
        ScanFlags { bits: b }
    }

    /// Parses a scan flags string, case-insensitively.
    pub fn parse(flags_str: &str) -> (r: ScanFlags)
        ensures
            r.bits() == scan_flag_bits(upper_text(flags_str@)),
    {
        let upper = to_uppercase(flags_str);
        ScanFlags::from_upper(upper.as_str())
    }
}

// ---------------------------------------------------------------------------
// Scan results
// ---------------------------------------------------------------------------

/// A scan result (available network).
#[derive(Debug, Clone)]
pub struct ScanResult {
    /// Frequency in MHz
    pub freq: i32,
    /// Signal strength in dBm
    pub signal: i32,
    /// BSSID
    pub bssid: MacAddr,
    /// SSID
    pub ssid: String,
    /// Security type
    pub security: Security,
    /// Parsed flags from wpa_supplicant
    pub flags: ScanFlags,
}

/// The content of a `ScanResult`.
pub struct ScanResultView {
    pub freq: i32,
    pub signal: i32,
    pub bssid: Seq<u8>,
    pub ssid: Seq<char>,
    pub security: Security,
    pub flags: u32,
}

impl View for ScanResult {
    type V = ScanResultView;

    open spec fn view(&self) -> ScanResultView {
        ScanResultView {
            freq: self.freq,
            signal: self.signal,
            bssid: self.bssid@,
            ssid: self.ssid@,
            security: self.security,
            flags: self.flags.bits(),
        }
    }
}

/// What `ScanResult::parse` gives for a `SCAN_RESULTS` line
/// (`bssid<TAB>freq<TAB>signal<TAB>flags<TAB>ssid`).
pub open spec fn scan_result_parse(line: Seq<char>) -> Option<ScanResultView> {
    let parts = split_char(line, '\t');
    if parts.len() < 5 || mac_parse(parts[0]) is None || parse_i32(parts[1]) is None
        || parse_i32(parts[2]) is None {
        None
    } else {
        Some(
            ScanResultView {
                freq: parse_i32(parts[1]).unwrap(),
                signal: parse_i32(parts[2]).unwrap(),
                bssid: mac_parse(parts[0]).unwrap(),
                ssid: ssid_text(unescape_bytes(parts[4])),
                security: security_from_flags(parts[3]),
                flags: scan_flag_bits(upper_text(parts[3])),
            },
        )
    }
}

/// Signal quality in percent: -30 dBm and above is 100, -90 dBm and below
/// is 0, linear in between (rounded down).
pub open spec fn signal_quality_of(signal: i32) -> int {
    let c: int = if signal < -90 {
        -90
    } else if signal > -30 {
        -30
    } else {
        signal as int
    };
    (c + 90) * 100 / 60
}

/// The WiFi channel of a frequency in MHz; 0 for frequencies without one.
pub open spec fn channel_of(freq: i32) -> u8 {
    if freq == 2412 {
        1
    } else if freq == 2417 {
        2
    } else if freq == 2422 {
        3
    } else if freq == 2427 {
        4
    } else if freq == 2432 {
        5
    } else if freq == 2437 {
        6
    } else if freq == 2442 {
        7
    } else if freq == 2447 {
        8
    } else if freq == 2452 {
        9
    } else if freq == 2457 {
        10
    } else if freq == 2462 {
        11
    } else if freq == 2467 {
        12
    } else if freq == 2472 {
        13
    } else if freq == 2484 {
        14
    } else if freq == 5180 {
        36
    } else if freq == 5200 {
        40
    } else if freq == 5220 {
        44
    } else if freq == 5240 {
        48
    } else if freq == 5260 {
        52
    } else if freq == 5280 {
        56
    } else if freq == 5300 {
        60
    } else if freq == 5320 {
        64
    } else if 5500 <= freq <= 5720 && (freq - 5500) % 20 == 0 {
        (100 + (freq - 5500) / 5) as u8
    } else if 5745 <= freq <= 5825 && (freq - 5745) % 20 == 0 {
        (149 + (freq - 5745) / 5) as u8
    } else {
        0
    }
}

impl ScanResult {
    /// Parses a line of the `SCAN_RESULTS` reply; header lines and lines
    /// with fewer than five fields, a bad BSSID or non-numeric numbers give
    /// `None`.
    pub fn parse(line: &str) -> (r: Option<ScanResult>)
        ensures
            match r {
                Some(s) => scan_result_parse(line@) == Some(s@),
                None => scan_result_parse(line@) is None,
            },
    {
        let cs = chars_of(line);
        let parts = split_char_exec(&cs, '\t');
        if parts.len() < 5 {
            return None;
        }
        let (a0, b0) = parts[0];
        let (a1, b1) = parts[1];
        let (a2, b2) = parts[2];
        let (a3, b3) = parts[3];
        let (a4, b4) = parts[4];
        assert(split_char(cs@, '\t')[0] == cs@.subrange(a0 as int, b0 as int));
        assert(split_char(cs@, '\t')[1] == cs@.subrange(a1 as int, b1 as int));
        assert(split_char(cs@, '\t')[2] == cs@.subrange(a2 as int, b2 as int));
        assert(split_char(cs@, '\t')[3] == cs@.subrange(a3 as int, b3 as int));
        assert(split_char(cs@, '\t')[4] == cs@.subrange(a4 as int, b4 as int));
        let bssid_text = string_of_range(&cs, a0, b0);
        let bssid = match MacAddr::parse(bssid_text.as_str()) {
            Some(m) => m,
            None => {
                return None;
            },
        };
        let freq = match parse_i32_exec(&cs, a1, b1) {
            Some(v) => v,
            None => {
                return None;
            },
        };
        let signal = match parse_i32_exec(&cs, a2, b2) {
            Some(v) => v,
            None => {
                return None;
            },
        };
        let flags_text = string_of_range(&cs, a3, b3);
        let flags = ScanFlags::parse(flags_text.as_str());
        let ssid_chars = crate::text::slice_vec(&cs, a4, b4);
        let ssid = unescape_chars(&ssid_chars);
        let security = Security::from_flags(flags_text.as_str());
        Some(ScanResult { freq, signal, bssid, ssid, security, flags })
    }

    /// Signal quality as a percentage (0 to 100).
    pub fn signal_quality(&self) -> (r: u8)
        ensures
            r == signal_quality_of(self.signal),
    {
        let clamped: i32 = if self.signal < -90 {
            -90
        } else if self.signal > -30 {
            -30
        } else {
            self.signal
        };
        ((clamped + 90) * 100 / 60) as u8
    }

    /// The WiFi channel number (0 when the frequency has none).
    pub fn channel(&self) -> (r: u8)
        ensures
            r == channel_of(self.freq),
    {
        let f = self.freq;
        if f == 2484 {
            14
        } else if 2412 <= f && f <= 2472 && (f - 2412) % 5 == 0 {
            (1 + (f - 2412) / 5) as u8
        } else if f == 5180 {
            36
        } else if f == 5200 {
            40
        } else if f == 5220 {
            44
        } else if f == 5240 {
            48
        } else if f == 5260 {
            52
        } else if f == 5280 {
            56
        } else if f == 5300 {
            60
        } else if f == 5320 {
            64
        } else if 5500 <= f && f <= 5720 && (f - 5500) % 20 == 0 {
            (100 + (f - 5500) / 5) as u8
        } else if 5745 <= f && f <= 5825 && (f - 5745) % 20 == 0 {
            (149 + (f - 5745) / 5) as u8
        } else {
            0
        }
    }
}

// ---------------------------------------------------------------------------
// Ordering and filtering
// ---------------------------------------------------------------------------

pub open spec fn signal_key(r: ScanResult) -> i32 {
    r.signal
}

pub open spec fn priority_key(n: KnownNetwork) -> i32 {
    n.priority
}

/// Sorts scan results by signal strength, strongest first; results of
/// equal strength keep their order.
pub fn sort_by_signal(results: &mut Vec<ScanResult>)
    ensures
        stable_sorted_desc(final(results)@, old(results)@, |r: ScanResult| signal_key(r)),
{
    let mut keys: Vec<i32> = Vec::new();
    let mut i: usize = 0;
    while i < results.len()
        invariant
            0 <= i <= results@.len(),
            keys@.len() == i,
            forall|k: int| 0 <= k < i ==> keys@[k] == #[trigger] results@[k].signal,
        decreases results@.len() - i,
    {
        keys.push(results[i].signal);
        i = i + 1;
    }
    let mut items: Vec<ScanResult> = Vec::new();
    std::mem::swap(&mut items, results);
    let ghost inp = items@;
    let (sorted, sorted_keys) = stable_sort_desc(items, keys);
    proof {
        let perm = choose|perm: Seq<int>|
            crate::sort::permuted_by(sorted@, inp, perm) && crate::sort::permuted_by(
                sorted_keys@,
                keys@,
                perm,
            ) && crate::sort::sorted_desc(sorted_keys@) && crate::sort::stable(
                sorted_keys@,
                perm,
            );
        assert forall|k: int| 0 <= k < sorted@.len() implies #[trigger] sorted@[k].signal
            == sorted_keys@[k] by {
            assert(sorted_keys@[k] == keys@[perm[k]]);
            assert(sorted@[k] == inp[perm[k]]);
        }
        assert(sorted@.map_values(|r: ScanResult| signal_key(r)) =~= sorted_keys@);
    }
    *results = sorted;
}

/// Sorts known networks by priority, highest first; networks of equal
/// priority keep their order.
pub fn sort_by_priority(networks: &mut Vec<KnownNetwork>)
    ensures
        stable_sorted_desc(final(networks)@, old(networks)@, |n: KnownNetwork| priority_key(n)),
{
    let mut keys: Vec<i32> = Vec::new();
    let mut i: usize = 0;
    while i < networks.len()
        invariant
            0 <= i <= networks@.len(),
            keys@.len() == i,
            forall|k: int| 0 <= k < i ==> keys@[k] == #[trigger] networks@[k].priority,
        decreases networks@.len() - i,
    {
        keys.push(networks[i].priority);
        i = i + 1;
    }
    let mut items: Vec<KnownNetwork> = Vec::new();
    std::mem::swap(&mut items, networks);
    let ghost inp = items@;
    let (sorted, sorted_keys) = stable_sort_desc(items, keys);
    proof {
        let perm = choose|perm: Seq<int>|
            crate::sort::permuted_by(sorted@, inp, perm) && crate::sort::permuted_by(
                sorted_keys@,
                keys@,
                perm,
            ) && crate::sort::sorted_desc(sorted_keys@) && crate::sort::stable(
                sorted_keys@,
                perm,
            );
        assert forall|k: int| 0 <= k < sorted@.len() implies #[trigger] sorted@[k].priority
            == sorted_keys@[k] by {
            assert(sorted_keys@[k] == keys@[perm[k]]);
            assert(sorted@[k] == inp[perm[k]]);
        }
        assert(sorted@.map_values(|n: KnownNetwork| priority_key(n)) =~= sorted_keys@);
    }
    *networks = sorted;
}

/// The SSID of a scan result, lower-cased, contains the lower-cased filter.
pub open spec fn scan_ssid_matches(r: ScanResult, filter: Seq<char>) -> bool {
    contains(lower_text(r.ssid@), lower_text(filter))
}

/// The SSID of a known network, lower-cased, contains the lower-cased
/// filter.
pub open spec fn known_ssid_matches(n: KnownNetwork, filter: Seq<char>) -> bool {
    contains(lower_text(n.ssid@), lower_text(filter))
}

/// The scan results whose SSID contains `filter`, ignoring case, in their
/// order.
pub fn filter_by_ssid(results: Vec<ScanResult>, filter: &str) -> (r: Vec<ScanResult>)
    ensures
        r@ == results@.filter(|x: ScanResult| scan_ssid_matches(x, filter@)),
{
    let fl = to_lowercase(filter);
    let flc = chars_of(fl.as_str());
    let ghost inp = results@;
    let mut rest = results;
    let mut out: Vec<ScanResult> = Vec::new();
    let n = rest.len();
    let mut i: usize = 0;
    assert(inp.skip(0) =~= inp);
    assert(inp.take(0).filter(|x: ScanResult| scan_ssid_matches(x, filter@)) =~= Seq::<
        ScanResult,
    >::empty()) by {
        reveal_with_fuel(Seq::filter, 1);
    }
    while i < n
        invariant
            n == inp.len(),
            0 <= i <= n,
            flc@ == lower_text(filter@),
            rest@ == inp.skip(i as int),
            out@ == inp.take(i as int).filter(|x: ScanResult| scan_ssid_matches(x, filter@)),
        decreases n - i,
    {
        assert(rest@[0] == inp[i as int]);
        let x = rest.remove(0);
        assert(rest@ =~= inp.skip(i + 1));
        let low = to_lowercase(x.ssid.as_str());
        let lc = chars_of(low.as_str());
        let keep = contains_exec(&lc, &flc);
        proof {
            let p = |y: ScanResult| scan_ssid_matches(y, filter@);
            let t = inp.take(i + 1);
            assert(t.drop_last() =~= inp.take(i as int));
            assert(t.last() == x);
            reveal_with_fuel(Seq::filter, 1);
            assert(t.filter(p) == if p(x) {
                inp.take(i as int).filter(p).push(x)
            } else {
                inp.take(i as int).filter(p)
            });
        }
        if keep {
            out.push(x);
        }
        i = i + 1;
    }
    assert(inp.take(n as int) =~= inp);
    out
}

/// The known networks whose SSID contains `filter`, ignoring case, in their
/// order.
pub fn filter_known_by_ssid(networks: Vec<KnownNetwork>, filter: &str) -> (r: Vec<KnownNetwork>)
    ensures
        r@ == networks@.filter(|x: KnownNetwork| known_ssid_matches(x, filter@)),
{
    let fl = to_lowercase(filter);
    let flc = chars_of(fl.as_str());
    let ghost inp = networks@;
    let mut rest = networks;
    let mut out: Vec<KnownNetwork> = Vec::new();
    let n = rest.len();
    let mut i: usize = 0;
    assert(inp.skip(0) =~= inp);
    assert(inp.take(0).filter(|x: KnownNetwork| known_ssid_matches(x, filter@)) =~= Seq::<
        KnownNetwork,
    >::empty()) by {
        reveal_with_fuel(Seq::filter, 1);
    }
    while i < n
        invariant
            n == inp.len(),
            0 <= i <= n,
            flc@ == lower_text(filter@),
            rest@ == inp.skip(i as int),
            out@ == inp.take(i as int).filter(|x: KnownNetwork| known_ssid_matches(x, filter@)),
        decreases n - i,
    {
        assert(rest@[0] == inp[i as int]);
        let x = rest.remove(0);
        assert(rest@ =~= inp.skip(i + 1));
        let low = to_lowercase(x.ssid.as_str());
        let lc = chars_of(low.as_str());
        let keep = contains_exec(&lc, &flc);
        proof {
            let p = |y: KnownNetwork| known_ssid_matches(y, filter@);
            let t = inp.take(i + 1);
            assert(t.drop_last() =~= inp.take(i as int));
            assert(t.last() == x);
            reveal_with_fuel(Seq::filter, 1);
            assert(t.filter(p) == if p(x) {
                inp.take(i as int).filter(p).push(x)
            } else {
                inp.take(i as int).filter(p)
            });
        }
        if keep {
            out.push(x);
        }
        i = i + 1;
    }
    assert(inp.take(n as int) =~= inp);
    out
}

} // verus!
