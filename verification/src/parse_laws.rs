//! Laws of the wpa_supplicant reply parsers, stated over the texts they
//! read: what a temp-disabled event names as its SSID, what each `STATUS`
//! line sets, and which SSID a `LIST_NETWORKS` line gives.
use vstd::prelude::*;

use crate::events::{event_of, EventView};
use crate::mac::hex2;
use crate::network::known_network_parse;
use crate::security::{security_from_key_mgmt, Security};
use crate::ssid::{escape_char, escape_seq, lemma_unescape_escape, ssid_text, unescape_bytes};
use crate::status::{status_apply, wpa_state_of, StatusView};
use crate::text::{
    contains, find, find_char, lemma_find, lemma_find_char, lemma_split_char_cons,
    occurs_at, parse_i32, split_char, starts_with,
};

verus! {

/// A text does not start with `p` when they differ at a position of `p`.
proof fn lemma_not_starts(s: Seq<char>, p: Seq<char>, k: int)
    requires
        0 <= k < p.len(),
        k < s.len(),
        s[k] != p[k],
    ensures
        !starts_with(s, p),
{
    if starts_with(s, p) {
        assert(s.subrange(0, p.len() as int)[k] == s[k]);
    }
}

/// The SSID of a temp-disabled event is the text between `ssid="` and the
/// next `"`, spaces included: for an event whose only `ssid="` stands at
/// the end of `head`, followed by an SSID `s` without quotes, a quote and
/// anything else, the parsed SSID is exactly `s`.
pub proof fn lemma_temp_disabled_ssid(mid: Seq<char>, s: Seq<char>, rest: Seq<char>)
    requires
        forall|j: int| 0 <= j < s.len() ==> s[j] != '"',
        ({
            let head = "CTRL-EVENT-SSID-TEMP-DISABLED"@ + mid;
            let raw = head + "ssid=\""@ + s + "\""@ + rest;
            forall|i: int| 0 <= i < head.len() ==> !occurs_at(raw, "ssid=\""@, i)
        }),
        !contains(s + "\""@ + rest, "ssid=\""@),
    ensures
        ({
            let raw = "CTRL-EVENT-SSID-TEMP-DISABLED"@ + mid + "ssid=\""@ + s + "\""@ + rest;
            event_of(raw) matches EventView::TempDisabled { ssid, .. } && ssid == s
        }),
{
    let h = "CTRL-EVENT-SSID-TEMP-DISABLED"@;
    let key = "ssid=\""@;
    let head = h + mid;
    let tail = s + "\""@ + rest;
    let raw = head + key + s + "\""@ + rest;
    reveal_strlit("CTRL-EVENT-SSID-TEMP-DISABLED");
    reveal_strlit("ssid=\"");
    reveal_strlit("\"");
    reveal_strlit("<");
    reveal_strlit("OK");
    reveal_strlit("CTRL-EVENT-BSS-REMOVED");
    reveal_strlit("CTRL-EVENT-CONNECTED");
    reveal_strlit("CTRL-EVENT-DISCONNECTED");
    reveal_strlit("CTRL-EVENT-SCAN-RESULTS");
    reveal_strlit("CTRL-EVENT-SCAN-STARTED");
    reveal_strlit("CTRL-EVENT-SCAN-FAILED");
    reveal_strlit("CTRL-EVENT-STATE-CHANGE");
    reveal_strlit("CTRL-EVENT-NETWORK-NOT-FOUND");
    assert(raw =~= head + (key + tail));
    assert forall|k: int| 0 <= k < h.len() implies raw[k] == h[k] by {
        assert(raw[k] == head[k]);
    }
    // Not a priority prefix, and none of the event kinds tested before.
    lemma_not_starts(raw, "<"@, 0);
    assert(raw != "OK"@) by {
        assert(raw.len() > 2);
    }
    lemma_not_starts(raw, "CTRL-EVENT-BSS-REMOVED"@, 11);
    lemma_not_starts(raw, "CTRL-EVENT-CONNECTED"@, 11);
    lemma_not_starts(raw, "CTRL-EVENT-DISCONNECTED"@, 11);
    lemma_not_starts(raw, "CTRL-EVENT-SCAN-RESULTS"@, 12);
    lemma_not_starts(raw, "CTRL-EVENT-SCAN-STARTED"@, 12);
    lemma_not_starts(raw, "CTRL-EVENT-SCAN-FAILED"@, 12);
    lemma_not_starts(raw, "CTRL-EVENT-STATE-CHANGE"@, 12);
    lemma_not_starts(raw, "CTRL-EVENT-NETWORK-NOT-FOUND"@, 11);
    assert(raw.subrange(0, h.len() as int) =~= h);
    assert(starts_with(raw, h));
    // The first `ssid="` is the one after `head`.
    let at = head.len() as int;
    assert(raw.subrange(at, at + key.len()) =~= key);
    assert(occurs_at(raw, key, at));
    lemma_find(raw, key);
    let i = find(raw, key)->0;
    assert(i == at) by {
        if i < at {
            assert(!occurs_at(raw, key, i));
        } else if i > at {
            assert(!occurs_at(raw, key, at));
        }
    }
    assert(raw.skip(at + key.len()) =~= tail);
    lemma_find(tail, key);
    // The SSID runs up to the first quote.
    assert(tail[s.len() as int] == '"');
    lemma_find_char(tail, '"');
    let q = find_char(tail, '"')->0;
    assert(q == s.len()) by {
        if q < s.len() {
            assert(tail[q] == s[q]);
        }
    }
    assert(tail.take(s.len() as int) =~= s);
}

/// Which field a `STATUS` line sets.
pub enum StatusField {
    Bssid,
    Freq,
    Ssid,
    Id,
    Mode,
    PairwiseCipher,
    GroupCipher,
    Security,
    State,
    IpAddress,
    EapIdentity,
}

/// `b` agrees with `a` on every field but `f`.
pub open spec fn same_but(a: StatusView, b: StatusView, f: StatusField) -> bool {
    &&& (f != StatusField::Bssid ==> b.bssid == a.bssid)
    &&& (f != StatusField::Freq ==> b.freq == a.freq)
    &&& (f != StatusField::Ssid ==> b.ssid == a.ssid)
    &&& (f != StatusField::Id ==> b.id == a.id)
    &&& (f != StatusField::Mode ==> b.mode == a.mode)
    &&& (f != StatusField::PairwiseCipher ==> b.pairwise_cipher == a.pairwise_cipher)
    &&& (f != StatusField::GroupCipher ==> b.group_cipher == a.group_cipher)
    &&& (f != StatusField::Security ==> b.security == a.security)
    &&& (f != StatusField::State ==> b.state == a.state)
    &&& (f != StatusField::IpAddress ==> b.ip_address == a.ip_address)
    &&& (f != StatusField::EapIdentity ==> b.eap_identity == a.eap_identity)
}

/// A `key=value` line of a `STATUS` reply sets the field of its key to the
/// value and leaves every other field as it was: `bssid`, `mode`,
/// `pairwise_cipher`, `group_cipher`, `ip_address` and `identity` take the
/// value's text, `freq` and `id` its number.
pub proof fn lemma_status_line_sets_its_field(st: StatusView, key: Seq<char>, value: Seq<char>)
    requires
        forall|j: int| 0 <= j < key.len() ==> key[j] != '=',
    ensures
        ({
            let r = status_apply(st, key + "="@ + value);
            &&& key == "bssid"@ ==> r.bssid == Some(value) && same_but(st, r, StatusField::Bssid)
            &&& key == "freq"@ ==> r.freq == parse_i32(value) && same_but(st, r, StatusField::Freq)
            &&& key == "id"@ ==> r.id == parse_i32(value) && same_but(st, r, StatusField::Id)
            &&& key == "mode"@ ==> r.mode == Some(value) && same_but(st, r, StatusField::Mode)
            &&& key == "pairwise_cipher"@ ==> r.pairwise_cipher == Some(value) && same_but(
                st,
                r,
                StatusField::PairwiseCipher,
            )
            &&& key == "group_cipher"@ ==> r.group_cipher == Some(value) && same_but(
                st,
                r,
                StatusField::GroupCipher,
            )
            &&& key == "ip_address"@ ==> r.ip_address == Some(value) && same_but(
                st,
                r,
                StatusField::IpAddress,
            )
            &&& key == "identity"@ ==> r.eap_identity == Some(value) && same_but(
                st,
                r,
                StatusField::EapIdentity,
            )
            &&& key == "ssid"@ ==> r.ssid == Some(ssid_text(unescape_bytes(value))) && same_but(
                st,
                r,
                StatusField::Ssid,
            )
            &&& key == "key_mgmt"@ ==> r.security == Some(security_from_key_mgmt(value)) && same_but(
                st,
                r,
                StatusField::Security,
            )
            &&& key == "wpa_state"@ ==> r.state == Some(wpa_state_of(value)) && same_but(
                st,
                r,
                StatusField::State,
            )
            &&& (key == "eap_session_id"@ || key == "eap_method"@) ==> r.security == (if st.security
                is None {
                Some(Security::Eap)
            } else {
                st.security
            }) && same_but(st, r, StatusField::Security)
        }),
{
    reveal(status_apply);
    reveal_strlit("=");
    reveal_strlit("bssid");
    reveal_strlit("freq");
    reveal_strlit("ssid");
    reveal_strlit("id");
    reveal_strlit("mode");
    reveal_strlit("pairwise_cipher");
    reveal_strlit("group_cipher");
    reveal_strlit("key_mgmt");
    reveal_strlit("wpa_state");
    reveal_strlit("ip_address");
    reveal_strlit("eap_session_id");
    reveal_strlit("eap_method");
    reveal_strlit("identity");
    let line = key + "="@ + value;
    let k = key.len() as int;
    assert(line[k] == '=');
    lemma_find_char(line, '=');
    let i = find_char(line, '=')->0;
    assert(i == k) by {
        if i < k {
            assert(line[i] == key[i]);
        }
    }
    assert(line.take(k) =~= key);
    assert(line.skip(k + 1) =~= value);
}

/// The escaped form of an SSID has no tab.
proof fn lemma_escape_has_no_tab(s: Seq<char>)
    ensures
        forall|j: int| 0 <= j < escape_seq(s).len() ==> escape_seq(s)[j] != '\t',
    decreases s.len(),
{
    if s.len() > 0 {
        lemma_escape_has_no_tab(s.drop_first());
        let e = escape_char(s[0]);
        let r = escape_seq(s.drop_first());
        assert(escape_seq(s) == e + r);
        assert forall|j: int| 0 <= j < e.len() implies e[j] != '\t' by {
            let c = s[0];
            if !(c == '\\' || c == '"' || c == '\n' || c == '\r' || c == '\t') && (
            crate::text::is_ascii_control(c) || c == ' ') {
                let b = c as u8;
                assert(e == seq!['\\', 'x'] + hex2(b));
                assert(b / 16 < 16 && b % 16 < 16);
            }
        }
        assert forall|j: int| 0 <= j < escape_seq(s).len() implies escape_seq(s)[j] != '\t' by {
            if j >= e.len() {
                assert(escape_seq(s)[j] == r[j - e.len()]);
            } else {
                assert(escape_seq(s)[j] == e[j]);
            }
        }
    }
}

/// A `LIST_NETWORKS` line gives the SSID of its second field decoded:
/// for an id, an SSID written in wpa_supplicant's escaped form and any
/// further fields, the parsed network's SSID is the SSID itself.
pub proof fn lemma_listed_network_ssid(id: Seq<char>, s: Seq<char>, rest: Seq<char>)
    requires
        parse_i32(id) is Some,
        forall|j: int| 0 <= j < id.len() ==> id[j] != '\t',
    ensures
        known_network_parse(id + seq!['\t'] + escape_seq(s) + seq!['\t'] + rest) matches Some(n)
            && n.ssid == s && n.id == parse_i32(id),
{
    let e = escape_seq(s);
    let line = id + seq!['\t'] + e + seq!['\t'] + rest;
    lemma_escape_has_no_tab(s);
    assert(line =~= id + seq!['\t'] + (e + seq!['\t'] + rest));
    lemma_split_char_cons(id, e + seq!['\t'] + rest, '\t');
    lemma_split_char_cons(e, rest, '\t');
    let parts = split_char(line, '\t');
    assert(parts == seq![id] + (seq![e] + split_char(rest, '\t')));
    assert(split_char(rest, '\t').len() >= 1) by {
        lemma_find_char(rest, '\t');
    }
    assert(parts[0] == id);
    assert(parts[1] == e);
    lemma_unescape_escape(s);
}

} // verus!
