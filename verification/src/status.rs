//! wpa_supplicant `STATUS` replies.
use vstd::prelude::*;

use crate::security::{security_from_key_mgmt, Security};
use crate::ssid::{ssid_text, unescape_bytes, unescape_chars};
use crate::text::{
    chars_eq_str, chars_of, find_char, find_char_exec, lemma_find_char, lines, lines_exec,
    parse_i32, parse_i32_str, slice_vec, string_of,
};

verus! {

/// State of wpa_supplicant.
#[derive(Debug, Clone, Copy, PartialEq, Eq, Structural)]
pub enum WpaState {
    Completed,
    Disconnected,
    Scanning,
    Associating,
    Associated,
    Authenticating,
    FourWayHandshake,
    GroupHandshake,
    Inactive,
    InterfaceDisabled,
    Unknown,
}

/// The state named by a `wpa_state` value.
pub open spec fn wpa_state_of(s: Seq<char>) -> WpaState {
    if s == "COMPLETED"@ {
        WpaState::Completed
    } else if s == "DISCONNECTED"@ {
        WpaState::Disconnected
    } else if s == "SCANNING"@ {
        WpaState::Scanning
    } else if s == "ASSOCIATING"@ {
        WpaState::Associating
    } else if s == "ASSOCIATED"@ {
        WpaState::Associated
    } else if s == "AUTHENTICATING"@ {
        WpaState::Authenticating
    } else if s == "4WAY_HANDSHAKE"@ {
        WpaState::FourWayHandshake
    } else if s == "GROUP_HANDSHAKE"@ {
        WpaState::GroupHandshake
    } else if s == "INACTIVE"@ {
        WpaState::Inactive
    } else if s == "INTERFACE_DISABLED"@ {
        WpaState::InterfaceDisabled
    } else {
        WpaState::Unknown
    }
}

fn wpa_state_of_chars(s: &Vec<char>) -> (r: WpaState)
    ensures
        r == wpa_state_of(s@),
{
    if chars_eq_str(s, "COMPLETED") {
        WpaState::Completed
    } else if chars_eq_str(s, "DISCONNECTED") {
        WpaState::Disconnected
    } else if chars_eq_str(s, "SCANNING") {
        WpaState::Scanning
    } else if chars_eq_str(s, "ASSOCIATING") {
        WpaState::Associating
    } else if chars_eq_str(s, "ASSOCIATED") {
        WpaState::Associated
    } else if chars_eq_str(s, "AUTHENTICATING") {
        WpaState::Authenticating
    } else if chars_eq_str(s, "4WAY_HANDSHAKE") {
        WpaState::FourWayHandshake
    } else if chars_eq_str(s, "GROUP_HANDSHAKE") {
        WpaState::GroupHandshake
    } else if chars_eq_str(s, "INACTIVE") {
        WpaState::Inactive
    } else if chars_eq_str(s, "INTERFACE_DISABLED") {
        WpaState::InterfaceDisabled
    } else {
        WpaState::Unknown
    }
}

impl WpaState {
    /// Parses a `wpa_state` value; unknown names give `Unknown`.
    pub fn from_str(s: &str) -> (r: WpaState)
        ensures
            r == wpa_state_of(s@),
    {
        wpa_state_of_chars(&chars_of(s))
    }
}

/// Current status of wpa_supplicant.
#[derive(Debug, Clone, Default)]
pub struct SupplicantStatus {
    pub freq: Option<i32>,
    pub state: Option<WpaState>,
    pub bssid: Option<String>,
    pub ssid: Option<String>,
    pub ip_address: Option<String>,
    pub security: Option<Security>,
    pub id: Option<i32>,
    pub mode: Option<String>,
    pub pairwise_cipher: Option<String>,
    pub group_cipher: Option<String>,
    pub eap_identity: Option<String>,
}

/// The abstract content of a `SupplicantStatus`, with texts as character
/// sequences.
pub struct StatusView {
    pub freq: Option<i32>,
    pub state: Option<WpaState>,
    pub bssid: Option<Seq<char>>,
    pub ssid: Option<Seq<char>>,
    pub ip_address: Option<Seq<char>>,
    pub security: Option<Security>,
    pub id: Option<i32>,
    pub mode: Option<Seq<char>>,
    pub pairwise_cipher: Option<Seq<char>>,
    pub group_cipher: Option<Seq<char>>,
    pub eap_identity: Option<Seq<char>>,
}

pub open spec fn opt_view(o: Option<String>) -> Option<Seq<char>> {
    match o {
        Some(s) => Some(s@),
        None => None,
    }
}

impl View for SupplicantStatus {
    type V = StatusView;

    open spec fn view(&self) -> StatusView {
        StatusView {
            freq: self.freq,
            state: self.state,
            bssid: opt_view(self.bssid),
            ssid: opt_view(self.ssid),
            ip_address: opt_view(self.ip_address),
            security: self.security,
            id: self.id,
            mode: opt_view(self.mode),
            pairwise_cipher: opt_view(self.pairwise_cipher),
            group_cipher: opt_view(self.group_cipher),
            eap_identity: opt_view(self.eap_identity),
        }
    }
}

/// The status with nothing known.
pub open spec fn empty_status() -> StatusView {
    StatusView {
        freq: None,
        state: None,
        bssid: None,
        ssid: None,
        ip_address: None,
        security: None,
        id: None,
        mode: None,
        pairwise_cipher: None,
        group_cipher: None,
        eap_identity: None,
    }
}

/// The effect of one `key=value` line of a `STATUS` reply; lines without
/// `=` and unknown keys change nothing.
#[verifier::opaque]
pub open spec fn status_apply(st: StatusView, line: Seq<char>) -> StatusView {
    match find_char(line, '=') {
        None => st,
        Some(i) => {
            let key = line.take(i);
            let value = line.skip(i + 1);
            if key == "bssid"@ {
                StatusView { bssid: Some(value), ..st }
            } else if key == "freq"@ {
                StatusView { freq: parse_i32(value), ..st }
            } else if key == "ssid"@ {
                StatusView { ssid: Some(ssid_text(unescape_bytes(value))), ..st }
            } else if key == "id"@ {
                StatusView { id: parse_i32(value), ..st }
            } else if key == "mode"@ {
                StatusView { mode: Some(value), ..st }
            } else if key == "pairwise_cipher"@ {
                StatusView { pairwise_cipher: Some(value), ..st }
            } else if key == "group_cipher"@ {
                StatusView { group_cipher: Some(value), ..st }
            } else if key == "key_mgmt"@ {
                StatusView { security: Some(security_from_key_mgmt(value)), ..st }
            } else if key == "wpa_state"@ {
                StatusView { state: Some(wpa_state_of(value)), ..st }
            } else if key == "ip_address"@ {
                StatusView { ip_address: Some(value), ..st }
            } else if key == "eap_session_id"@ || key == "eap_method"@ {
                if st.security is None {
                    StatusView { security: Some(Security::Eap), ..st }
                } else {
                    st
                }
            } else if key == "identity"@ {
                StatusView { eap_identity: Some(value), ..st }
            } else {
                st
            }
        },
    }
}

/// The lines applied in order.
pub open spec fn status_fold(st: StatusView, ls: Seq<Seq<char>>) -> StatusView
    decreases ls.len(),
{
    if ls.len() == 0 {
        st
    } else {
        status_fold(status_apply(st, ls[0]), ls.drop_first())
    }
}

/// The status described by a `STATUS` reply.
pub open spec fn status_parse(s: Seq<char>) -> StatusView {
    status_fold(empty_status(), lines(s))
}

/// The description of a state, as `state_description` gives it.
pub open spec fn state_text(state: Option<WpaState>) -> Seq<char> {
    match state {
        Some(WpaState::Completed) => "Connected"@,
        Some(WpaState::Disconnected) => "Disconnected"@,
        Some(WpaState::Scanning) => "Scanning"@,
        Some(WpaState::Associating) => "Associating"@,
        Some(WpaState::Associated) => "Associated"@,
        Some(WpaState::Authenticating) => "Authenticating"@,
        Some(WpaState::FourWayHandshake) => "Handshaking"@,
        Some(WpaState::GroupHandshake) => "Group Handshake"@,
        Some(WpaState::Inactive) => "Inactive"@,
        Some(WpaState::InterfaceDisabled) => "Interface Disabled"@,
        _ => "Unknown"@,
    }
}

fn opt_string(s: &Vec<char>) -> (r: Option<String>)
    ensures
        opt_view(r) == Some(s@),
{
    Some(string_of(s.as_slice()))
}

impl SupplicantStatus {
    /// The status with nothing known.
    pub fn empty() -> (r: SupplicantStatus)
        ensures
            r@ == empty_status(),
    {
        SupplicantStatus {
            freq: None,
            state: None,
            bssid: None,
            ssid: None,
            ip_address: None,
            security: None,
            id: None,
            mode: None,
            pairwise_cipher: None,
            group_cipher: None,
            eap_identity: None,
        }
    }

    /// Applies one line of a `STATUS` reply.
    fn apply_line(&mut self, line: &Vec<char>)
        ensures
            final(self)@ == status_apply(old(self)@, line@),
    {
        reveal(status_apply);
        assert(line@.len() == line.len());
        let i = match find_char_exec(line, '=', 0) {
            None => {
                assert(line@.skip(0) =~= line@);
                return;
            },
            Some(i) => i,
        };
        proof {
            assert(line@.skip(0) =~= line@);
            lemma_find_char(line@, '=');
        }
        let key = slice_vec(line, 0, i);
        let value = slice_vec(line, i + 1, line.len());
        assert(key@ =~= line@.take(i as int));
        assert(value@ =~= line@.skip(i + 1));
        if chars_eq_str(&key, "bssid") {
            self.bssid = opt_string(&value);
        } else if chars_eq_str(&key, "freq") {
            self.freq = parse_i32_str(&value);
        } else if chars_eq_str(&key, "ssid") {
            self.ssid = Some(unescape_chars(&value));
        } else if chars_eq_str(&key, "id") {
            self.id = parse_i32_str(&value);
        } else if chars_eq_str(&key, "mode") {
            self.mode = opt_string(&value);
        } else if chars_eq_str(&key, "pairwise_cipher") {
            self.pairwise_cipher = opt_string(&value);
        } else if chars_eq_str(&key, "group_cipher") {
            self.group_cipher = opt_string(&value);
        } else if chars_eq_str(&key, "key_mgmt") {
            let v = string_of(value.as_slice());
            self.security = Some(Security::from_key_mgmt(v.as_str()));
        } else if chars_eq_str(&key, "wpa_state") {
            let v = string_of(value.as_slice());
            self.state = Some(WpaState::from_str(v.as_str()));
        } else if chars_eq_str(&key, "ip_address") {
            self.ip_address = opt_string(&value);
        } else if chars_eq_str(&key, "eap_session_id") || chars_eq_str(&key, "eap_method") {
            if self.security.is_none() {
                self.security = Some(Security::Eap);
            }
        } else if chars_eq_str(&key, "identity") {
            self.eap_identity = opt_string(&value);
        }
    }

    /// Parses the reply to the `STATUS` command: one `key=value` per line.
    pub fn parse(response: &str) -> (r: SupplicantStatus)
        ensures
            r@ == status_parse(response@),
    {
        let cs = chars_of(response);
        let ls = lines_exec(&cs);
        let mut st = SupplicantStatus::empty();
        let ghost all = lines(cs@);
        let mut k: usize = 0;
        assert(all.skip(0) =~= all);
        while k < ls.len()
            invariant
                cs@ == response@,
                all == lines(cs@),
                ls@.len() == all.len(),
                0 <= k <= ls@.len(),
                forall|j: int|
                    0 <= j < ls@.len() ==> (#[trigger] ls@[j]).0 <= ls@[j].1 && ls@[j].1
                        <= cs@.len(),
                forall|j: int|
                    0 <= j < ls@.len() ==> #[trigger] lines(cs@)[j] == cs@.subrange(
                        ls@[j].0 as int,
                        ls@[j].1 as int,
                    ),
                status_parse(response@) == status_fold(st@, all.skip(k as int)),
            decreases ls@.len() - k,
        {
            let (a, b) = ls[k];
            let line = slice_vec(&cs, a, b);
            assert(line@ == all[k as int]);
            proof {
                let rest = all.skip(k as int);
                assert(rest[0] == all[k as int]);
                assert(rest.drop_first() =~= all.skip(k + 1));
            }
            st.apply_line(&line);
            k = k + 1;
        }
        assert(all.skip(ls@.len() as int) =~= Seq::<Seq<char>>::empty());
        st
    }

    /// Whether the state is `COMPLETED`.
    pub fn is_connected(&self) -> (r: bool)
        ensures
            r == (self.state == Some(WpaState::Completed)),
    {
        matches!(self.state, Some(WpaState::Completed))
    }

    /// Whether the state is `SCANNING`.
    pub fn is_scanning(&self) -> (r: bool)
        ensures
            r == (self.state == Some(WpaState::Scanning)),
    {
        matches!(self.state, Some(WpaState::Scanning))
    }

    /// Whether the state is `DISCONNECTED`, `INACTIVE` or unknown.
    pub fn is_disconnected(&self) -> (r: bool)
        ensures
            r == (self.state == Some(WpaState::Disconnected) || self.state == Some(
                WpaState::Inactive,
            ) || self.state is None),
    {
        matches!(self.state, Some(WpaState::Disconnected) | Some(WpaState::Inactive) | None)
    }

    /// Whether association is in progress.
    pub fn is_associating(&self) -> (r: bool)
        ensures
            r == (self.state == Some(WpaState::Associating) || self.state == Some(
                WpaState::Associated,
            ) || self.state == Some(WpaState::FourWayHandshake) || self.state == Some(
                WpaState::GroupHandshake,
            )),
    {
        matches!(
            self.state,
            Some(WpaState::Associating) | Some(WpaState::Associated) | Some(
                WpaState::FourWayHandshake,
            ) | Some(WpaState::GroupHandshake)
        )
    }

    /// A human-readable description of the state.
    pub fn state_description(&self) -> (r: &'static str)
        ensures
            r@ == state_text(self.state),
    {
        match self.state {
            Some(WpaState::Completed) => "Connected",
            Some(WpaState::Disconnected) => "Disconnected",
            Some(WpaState::Scanning) => "Scanning",
            Some(WpaState::Associating) => "Associating",
            Some(WpaState::Associated) => "Associated",
            Some(WpaState::Authenticating) => "Authenticating",
            Some(WpaState::FourWayHandshake) => "Handshaking",
            Some(WpaState::GroupHandshake) => "Group Handshake",
            Some(WpaState::Inactive) => "Inactive",
            Some(WpaState::InterfaceDisabled) => "Interface Disabled",
            _ => "Unknown",
        }
    }

    /// The frequency band: below 3000 MHz is 2.4 GHz, otherwise 5 GHz.
    pub fn band(&self) -> (r: Option<&'static str>)
        ensures
            match self.freq {
                Some(f) => r matches Some(b) && b@ == (if f < 3000 {
                    "2.4 GHz"@
                } else {
                    "5 GHz"@
                }),
                None => r is None,
            },
    {
        match self.freq {
            Some(f) => if f < 3000 {
                Some("2.4 GHz")
            } else {
                Some("5 GHz")
            },
            None => None,
        }
    }
}

} // verus!
