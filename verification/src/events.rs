//! wpa_supplicant event messages.
use vstd::prelude::*;

use crate::text::{
    after_first, after_first_exec, chars_eq_str, chars_of, contains, contains_str,
    find_char, find_char_exec, first_word, first_word_exec, last_word, last_word_exec,
    parse_i32, parse_i32_str, slice_vec, starts_with, starts_with_str,
    string_of, string_of_range, digit_value, lemma_find_char, lemma_nat_text_decimal, nat_text,
};

verus! {

/// Authentication completed, data connection enabled
pub const WPA_EVENT_CONNECTED: &'static str = "CTRL-EVENT-CONNECTED";

/// Disconnected from network
pub const WPA_EVENT_DISCONNECTED: &'static str = "CTRL-EVENT-DISCONNECTED";

/// Association rejected when connecting
pub const WPA_EVENT_ASSOC_REJECT: &'static str = "CTRL-EVENT-ASSOC-REJECT";

/// Authentication rejected when connecting
pub const WPA_EVENT_AUTH_REJECT: &'static str = "CTRL-EVENT-AUTH-REJECT";

/// wpa_supplicant is exiting
pub const WPA_EVENT_TERMINATING: &'static str = "CTRL-EVENT-TERMINATING";

/// Scan has started
pub const WPA_EVENT_SCAN_STARTED: &'static str = "CTRL-EVENT-SCAN-STARTED";

/// New scan results available
pub const WPA_EVENT_SCAN_RESULTS: &'static str = "CTRL-EVENT-SCAN-RESULTS";

/// Scan failed
pub const WPA_EVENT_SCAN_FAILED: &'static str = "CTRL-EVENT-SCAN-FAILED";

/// State change notification
pub const WPA_EVENT_STATE_CHANGE: &'static str = "CTRL-EVENT-STATE-CHANGE";

/// No suitable network found
pub const WPA_EVENT_NETWORK_NOT_FOUND: &'static str = "CTRL-EVENT-NETWORK-NOT-FOUND";

/// Network temporarily disabled
pub const WPA_EVENT_TEMP_DISABLED: &'static str = "CTRL-EVENT-SSID-TEMP-DISABLED";

/// Re-enabled after temp disable
pub const WPA_EVENT_REENABLED: &'static str = "CTRL-EVENT-SSID-REENABLED";

/// Associated with AP (custom event marker)
pub const WPA_EVENT_ASSOCIATED: &'static str = "Associated with";

/// EAP events
pub const WPA_EVENT_EAP_STARTED: &'static str = "CTRL-EVENT-EAP-STARTED";

pub const WPA_EVENT_EAP_METHOD: &'static str = "CTRL-EVENT-EAP-METHOD";

pub const WPA_EVENT_EAP_SUCCESS: &'static str = "CTRL-EVENT-EAP-SUCCESS";

pub const WPA_EVENT_EAP_FAILURE: &'static str = "CTRL-EVENT-EAP-FAILURE";

/// BSS mask flags for filtering BSS query results
pub const WPA_BSS_MASK_ID: u32 = 1 << 0;

pub const WPA_BSS_MASK_BSSID: u32 = 1 << 1;

pub const WPA_BSS_MASK_FREQ: u32 = 1 << 2;

pub const WPA_BSS_MASK_BEACON_INT: u32 = 1 << 3;

pub const WPA_BSS_MASK_CAPABILITIES: u32 = 1 << 4;

pub const WPA_BSS_MASK_QUAL: u32 = 1 << 5;

pub const WPA_BSS_MASK_NOISE: u32 = 1 << 6;

pub const WPA_BSS_MASK_LEVEL: u32 = 1 << 7;

pub const WPA_BSS_MASK_TSF: u32 = 1 << 8;

pub const WPA_BSS_MASK_AGE: u32 = 1 << 9;

pub const WPA_BSS_MASK_IE: u32 = 1 << 10;

pub const WPA_BSS_MASK_FLAGS: u32 = 1 << 11;

pub const WPA_BSS_MASK_SSID: u32 = 1 << 12;

pub const WPA_BSS_MASK_WPS_SCAN: u32 = 1 << 13;

pub const WPA_BSS_MASK_P2P_SCAN: u32 = 1 << 14;

pub const WPA_BSS_MASK_INTERNETW: u32 = 1 << 15;

pub const WPA_BSS_MASK_WIFI_DISPLAY: u32 = 1 << 16;

pub const WPA_BSS_MASK_DELIM: u32 = 1 << 17;

pub const WPA_BSS_MASK_MESH_SCAN: u32 = 1 << 18;

/// Why wpa_supplicant disabled a network for a while.
#[derive(Debug, Clone, PartialEq, Eq)]
pub enum WpaTempDisabledReason {
    AuthFailure,
    AssociationFailure,
    NoNetwork,
    Unknown(String),
}

/// The content of a `WpaTempDisabledReason`.
pub enum ReasonView {
    AuthFailure,
    AssociationFailure,
    NoNetwork,
    Unknown(Seq<char>),
}

impl View for WpaTempDisabledReason {
    type V = ReasonView;

    open spec fn view(&self) -> ReasonView {
        match self {
            WpaTempDisabledReason::AuthFailure => ReasonView::AuthFailure,
            WpaTempDisabledReason::AssociationFailure => ReasonView::AssociationFailure,
            WpaTempDisabledReason::NoNetwork => ReasonView::NoNetwork,
            WpaTempDisabledReason::Unknown(s) => ReasonView::Unknown(s@),
        }
    }
}

/// The reason named by the `reason=` field of a temp-disabled event.
pub open spec fn reason_of(s: Seq<char>) -> ReasonView {
    if s == "AUTH_FAILURE"@ || s == "WRONG_KEY"@ {
        ReasonView::AuthFailure
    } else if s == "ASSOCIATION_FAILURE"@ {
        ReasonView::AssociationFailure
    } else if s == "NO_NETWORK"@ {
        ReasonView::NoNetwork
    } else {
        ReasonView::Unknown(s)
    }
}

impl WpaTempDisabledReason {
    /// Parses the `reason=` value of a temp-disabled event.
    pub fn parse(reason_str: &str) -> (r: WpaTempDisabledReason)
        ensures
            r@ == reason_of(reason_str@),
    {
        let s = chars_of(reason_str);
        if chars_eq_str(&s, "AUTH_FAILURE") || chars_eq_str(&s, "WRONG_KEY") {
            WpaTempDisabledReason::AuthFailure
        } else if chars_eq_str(&s, "ASSOCIATION_FAILURE") {
            WpaTempDisabledReason::AssociationFailure
        } else if chars_eq_str(&s, "NO_NETWORK") {
            WpaTempDisabledReason::NoNetwork
        } else {
            WpaTempDisabledReason::Unknown(reason_str.to_owned())
        }
    }
}

/// A parsed wpa_supplicant event.
#[derive(Debug, Clone, PartialEq, Eq)]
pub enum WpaEvent {
    /// Connected to network
    Connected { bssid: String },
    /// Disconnected from network
    Disconnected { bssid: Option<String>, reason: Option<i32> },
    /// Scan results available
    ScanResults,
    /// Scan started
    ScanStarted,
    /// Scan failed
    ScanFailed,
    /// State changed
    StateChange { old: String, new: String },
    /// Network not found
    NetworkNotFound,
    /// Network temporarily disabled
    TempDisabled { ssid: String, reason: WpaTempDisabledReason },
    /// Associated with AP
    Associated { bssid: String },
    /// BSS removed from scan results
    BssRemoved { bssid: String },
    /// Command success
    CommandOk,
    /// Unknown event
    Unknown(String),
}

/// The content of a `WpaEvent`.
pub enum EventView {
    Connected { bssid: Seq<char> },
    Disconnected { bssid: Option<Seq<char>>, reason: Option<i32> },
    ScanResults,
    ScanStarted,
    ScanFailed,
    StateChange { old: Seq<char>, new: Seq<char> },
    NetworkNotFound,
    TempDisabled { ssid: Seq<char>, reason: ReasonView },
    Associated { bssid: Seq<char> },
    BssRemoved { bssid: Seq<char> },
    CommandOk,
    Unknown(Seq<char>),
}

impl View for WpaEvent {
    type V = EventView;

    open spec fn view(&self) -> EventView {
        match self {
            WpaEvent::Connected { bssid } => EventView::Connected { bssid: bssid@ },
            WpaEvent::Disconnected { bssid, reason } => EventView::Disconnected {
                bssid: match bssid {
                    Some(b) => Some(b@),
                    None => None,
                },
                reason: *reason,
            },
            WpaEvent::ScanResults => EventView::ScanResults,
            WpaEvent::ScanStarted => EventView::ScanStarted,
            WpaEvent::ScanFailed => EventView::ScanFailed,
            WpaEvent::StateChange { old, new } => EventView::StateChange { old: old@, new: new@ },
            WpaEvent::NetworkNotFound => EventView::NetworkNotFound,
            WpaEvent::TempDisabled { ssid, reason } => EventView::TempDisabled {
                ssid: ssid@,
                reason: reason@,
            },
            WpaEvent::Associated { bssid } => EventView::Associated { bssid: bssid@ },
            WpaEvent::BssRemoved { bssid } => EventView::BssRemoved { bssid: bssid@ },
            WpaEvent::CommandOk => EventView::CommandOk,
            WpaEvent::Unknown(s) => EventView::Unknown(s@),
        }
    }
}

/// The message without its `<N>` priority prefix.
pub open spec fn strip_priority(raw: Seq<char>) -> Seq<char> {
    if starts_with(raw, "<"@) {
        match find_char(raw, '>') {
            Some(e) => raw.skip(e + 1),
            None => raw,
        }
    } else {
        raw
    }
}

/// The first word after the first occurrence of `key` (`s.split(key).nth(1)`
/// then `split_whitespace().next()`).
pub open spec fn word_after(msg: Seq<char>, key: Seq<char>) -> Option<Seq<char>> {
    match after_first(msg, key) {
        Some(t) => first_word(t),
        None => None,
    }
}

pub open spec fn or_empty(o: Option<Seq<char>>) -> Seq<char> {
    match o {
        Some(s) => s,
        None => seq![],
    }
}

/// The text up to the first `"` (`split('"').next()`).
pub open spec fn up_to_quote(s: Seq<char>) -> Seq<char> {
    match find_char(s, '"') {
        Some(i) => s.take(i),
        None => s,
    }
}

/// The event that a raw wpa_supplicant message describes.
pub open spec fn event_of(raw: Seq<char>) -> EventView {
    let msg = strip_priority(raw);
    if msg == "OK"@ {
        EventView::CommandOk
    } else if starts_with(msg, "CTRL-EVENT-BSS-REMOVED"@) {
        EventView::BssRemoved { bssid: or_empty(last_word(msg)) }
    } else if starts_with(msg, "CTRL-EVENT-CONNECTED"@) {
        EventView::Connected { bssid: or_empty(word_after(msg, "Connection to "@)) }
    } else if starts_with(msg, "CTRL-EVENT-DISCONNECTED"@) {
        EventView::Disconnected {
            bssid: word_after(msg, "bssid="@),
            reason: match word_after(msg, "reason="@) {
                Some(w) => parse_i32(w),
                None => None,
            },
        }
    } else if starts_with(msg, "CTRL-EVENT-SCAN-RESULTS"@) {
        EventView::ScanResults
    } else if starts_with(msg, "CTRL-EVENT-SCAN-STARTED"@) {
        EventView::ScanStarted
    } else if starts_with(msg, "CTRL-EVENT-SCAN-FAILED"@) {
        EventView::ScanFailed
    } else if starts_with(msg, "CTRL-EVENT-STATE-CHANGE"@) {
        EventView::StateChange {
            old: or_empty(word_after(msg, "old_state="@)),
            new: or_empty(word_after(msg, "state="@)),
        }
    } else if starts_with(msg, "CTRL-EVENT-NETWORK-NOT-FOUND"@) {
        EventView::NetworkNotFound
    } else if starts_with(msg, "CTRL-EVENT-SSID-TEMP-DISABLED"@) {
        EventView::TempDisabled {
            ssid: match after_first(msg, "ssid=\""@) {
                Some(t) => up_to_quote(t),
                None => seq![],
            },
            reason: reason_of(or_empty(word_after(msg, "reason="@))),
        }
    } else if contains(msg, "Associated with"@) {
        EventView::Associated { bssid: or_empty(word_after(msg, "Associated with"@)) }
    } else {
        EventView::Unknown(raw)
    }
}

/// A leading `<N>` priority prefix does not change what an event is
/// parsed as; an unknown event keeps the whole text, prefix included.
pub proof fn lemma_priority_prefix_ignored(n: nat, msg: Seq<char>)
    requires
        !starts_with(msg, "<"@),
    ensures
        ({
            let raw = "<"@ + nat_text(n) + ">"@ + msg;
            event_of(raw) == match event_of(msg) {
                EventView::Unknown(_) => EventView::Unknown(raw),
                e => e,
            }
        }),
{
    reveal_strlit("<");
    reveal_strlit(">");
    let t = nat_text(n);
    let raw = "<"@ + t + ">"@ + msg;
    lemma_nat_text_decimal(n);
    assert(raw.subrange(0, 1) =~= "<"@);
    assert(starts_with(raw, "<"@));
    let k: int = t.len() as int + 1;
    assert(raw[k] == '>');
    assert forall|j: int| 0 <= j < k implies raw[j] != '>' by {
        if j > 0 {
            assert(raw[j] == t[j - 1]);
            assert(digit_value(t[j - 1], 10) is Some);
        }
    }
    lemma_find_char(raw, '>');
    assert(find_char(raw, '>') == Some(k));
    assert(raw.skip(k + 1) =~= msg);
    assert(strip_priority(raw) == msg);
    assert(strip_priority(msg) == msg);
}

/// The first word after the first occurrence of `key` in `msg`.
fn word_after_exec(msg: &Vec<char>, key: &str) -> (r: Option<Vec<char>>)
    requires
        key@.len() > 0,
    ensures
        match r {
            Some(w) => word_after(msg@, key@) == Some(w@),
            None => word_after(msg@, key@) is None,
        },
{
    let k = chars_of(key);
    match after_first_exec(msg, &k) {
        None => None,
        Some((a, b)) => {
            let t = slice_vec(msg, a, b);
            assert(t@.skip(0) =~= t@);
            match first_word_exec(&t, 0) {
                None => None,
                Some((c, d)) => Some(slice_vec(&t, c, d)),
            }
        },
    }
}

fn or_empty_exec(o: Option<Vec<char>>) -> (r: String)
    ensures
        r@ == or_empty(match o {
            Some(v) => Some(v@),
            None => None,
        }),
{
    match o {
        Some(v) => string_of(v.as_slice()),
        None => String::new(),
    }
}

impl WpaEvent {
    /// Parses a raw event message from wpa_supplicant, with or without the
    /// `<N>` priority prefix.
    pub fn parse(raw: &str) -> (r: WpaEvent)
        ensures
            r@ == event_of(raw@),
    {
        let rc = chars_of(raw);
        let msg = if starts_with_str(&rc, "<") {
            match find_char_exec(&rc, '>', 0) {
                Some(e) => {
                    let n = rc.len();
                    assert(rc@.skip(0) =~= rc@);
                    slice_vec(&rc, e + 1, n)
                },
                None => {
                    assert(rc@.skip(0) =~= rc@);
                    rc.clone()
                },
            }
        } else {
            rc.clone()
        };
        assert(msg@ =~= strip_priority(raw@));
        if chars_eq_str(&msg, "OK") {
            WpaEvent::CommandOk
        } else if starts_with_str(&msg, "CTRL-EVENT-BSS-REMOVED") {
            let bssid = match last_word_exec(&msg) {
                Some((a, b)) => string_of_range(&msg, a, b),
                None => String::new(),
            };
            WpaEvent::BssRemoved { bssid }
        } else if starts_with_str(&msg, "CTRL-EVENT-CONNECTED") {
            proof {
                reveal_strlit("Connection to ");
            }
            let bssid = or_empty_exec(word_after_exec(&msg, "Connection to "));
            WpaEvent::Connected { bssid }
        } else if starts_with_str(&msg, "CTRL-EVENT-DISCONNECTED") {
            proof {
                reveal_strlit("bssid=");
                reveal_strlit("reason=");
            }
            let bssid = match word_after_exec(&msg, "bssid=") {
                Some(w) => Some(string_of(w.as_slice())),
                None => None,
            };
            let reason = match word_after_exec(&msg, "reason=") {
                Some(w) => parse_i32_str(&w),
                None => None,
            };
            WpaEvent::Disconnected { bssid, reason }
        } else if starts_with_str(&msg, "CTRL-EVENT-SCAN-RESULTS") {
            WpaEvent::ScanResults
        } else if starts_with_str(&msg, "CTRL-EVENT-SCAN-STARTED") {
            WpaEvent::ScanStarted
        } else if starts_with_str(&msg, "CTRL-EVENT-SCAN-FAILED") {
            WpaEvent::ScanFailed
        } else if starts_with_str(&msg, "CTRL-EVENT-STATE-CHANGE") {
            proof {
                reveal_strlit("old_state=");
                reveal_strlit("state=");
            }
            let old = or_empty_exec(word_after_exec(&msg, "old_state="));
            let new = or_empty_exec(word_after_exec(&msg, "state="));
            WpaEvent::StateChange { old, new }
        } else if starts_with_str(&msg, "CTRL-EVENT-NETWORK-NOT-FOUND") {
            WpaEvent::NetworkNotFound
        } else if starts_with_str(&msg, "CTRL-EVENT-SSID-TEMP-DISABLED") {
            proof {
                reveal_strlit("ssid=\"");
                reveal_strlit("reason=");
            }
            let key = chars_of("ssid=\"");
            let ssid = match after_first_exec(&msg, &key) {
                Some((a, b)) => {
                    let t = slice_vec(&msg, a, b);
                    assert(t@.skip(0) =~= t@);
                    match find_char_exec(&t, '"', 0) {
                        Some(q) => string_of_range(&t, 0, q),
                        None => string_of(t.as_slice()),
                    }
                },
                None => String::new(),
            };
            let reason_text = or_empty_exec(word_after_exec(&msg, "reason="));
            let reason = WpaTempDisabledReason::parse(reason_text.as_str());
            WpaEvent::TempDisabled { ssid, reason }
        } else if contains_str(&msg, "Associated with") {
            proof {
                reveal_strlit("Associated with");
            }
            let bssid = or_empty_exec(word_after_exec(&msg, "Associated with"));
            WpaEvent::Associated { bssid }
        } else {
            WpaEvent::Unknown(raw.to_owned())
        }
    }
}

} // verus!
