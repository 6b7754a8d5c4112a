//! WiFi manager requests and events, and the wpa_supplicant commands.
use vstd::prelude::*;

use crate::events::WpaEvent;
use crate::mac::MacAddr;
use crate::network::{KnownNetwork, KnownNetworkView};
use crate::security::Security;
use crate::status::SupplicantStatus;
use crate::text::{append_str, int_text, push_char, push_signed_decimal};

verus! {

/// An event published by a WiFi manager.
#[derive(Debug, Clone)]
pub enum WiFiManagerEvent {
    /// New scan results are available
    ScanResultsAvailable,
    /// Supplicant status updated
    StatusUpdated { iface: String, status: Box<SupplicantStatus> },
}

/// A request to a WiFi manager.
#[derive(Debug, Clone)]
pub enum WiFiManagerAction {
    /// Start a scan
    Scan,
    /// Fetch current cached scan results
    ScanResults,
    /// Fetch known/saved networks
    KnownNetworks,
    /// Fetch current supplicant status
    Status,
    /// Register a known network (does not connect)
    AddNetwork {
        ssid: String,
        bssid: Option<MacAddr>,
        security: Security,
        password: Option<String>,
        identity: Option<String>,
        hidden: bool,
    },
    /// Remove a network
    RemoveNetwork { ssid: String, bssid: Option<MacAddr> },
    /// Connect to a stored known network
    Connect { ssid: String, bssid: Option<MacAddr> },
    /// Disconnect from current network
    Disconnect,
    /// Reconnect to current network
    Reconnect,
    /// Subscribe to WiFi events
    SubscribeEvents,
    /// Internal event from wpa_supplicant
    WpaEvent { event: WpaEvent },
}

/// A command of the wpa_supplicant control interface.
#[derive(Debug, Clone)]
pub enum WpaCommand {
    Bss { addr: String },
    Ping,
    Scan,
    ScanResults,
    Status,
    /// `SET key value`
    SetParam { key: String, value: String },
    AddNetwork,
    SetNetwork { id: i32, key: String, value: String },
    GetNetwork { id: i32, key: String },
    ListNetworks,
    EnableNetwork { id: i32 },
    DisableNetwork { id: i32 },
    RemoveNetwork { id: i32 },
    SelectNetwork { id: Option<i32> },
    Reassociate,
    Reconfigure,
    Disconnect,
    Reconnect,
    Attach,
    Detach,
    SaveConfig,
    Unknown(String),
}

/// The wire string of a command, as sent to wpa_supplicant.
pub open spec fn wire_text(c: WpaCommand) -> Seq<char> {
    match c {
        WpaCommand::Bss { addr } => "BSS "@ + addr@,
        WpaCommand::Ping => "PING"@,
        WpaCommand::Scan => "SCAN"@,
        WpaCommand::ScanResults => "SCAN_RESULTS"@,
        WpaCommand::Status => "STATUS"@,
        WpaCommand::SetParam { key, value } => "SET "@ + key@ + " "@ + value@,
        WpaCommand::AddNetwork => "ADD_NETWORK"@,
        WpaCommand::SetNetwork { id, key, value } => "SET_NETWORK "@ + int_text(id as int)
            + " "@ + key@ + " "@ + value@,
        WpaCommand::GetNetwork { id, key } => "GET_NETWORK "@ + int_text(id as int) + " "@
            + key@,
        WpaCommand::ListNetworks => "LIST_NETWORKS"@,
        WpaCommand::EnableNetwork { id } => "ENABLE_NETWORK "@ + int_text(id as int),
        WpaCommand::DisableNetwork { id } => "DISABLE_NETWORK "@ + int_text(id as int),
        WpaCommand::RemoveNetwork { id } => "REMOVE_NETWORK "@ + int_text(id as int),
        WpaCommand::SelectNetwork { id } => match id {
            Some(n) => "SELECT_NETWORK "@ + int_text(n as int),
            None => "SELECT_NETWORK any"@,
        },
        WpaCommand::Reassociate => "REASSOCIATE"@,
        WpaCommand::Reconfigure => "RECONFIGURE"@,
        WpaCommand::Disconnect => "DISCONNECT"@,
        WpaCommand::Reconnect => "RECONNECT"@,
        WpaCommand::Attach => "ATTACH"@,
        WpaCommand::Detach => "DETACH"@,
        WpaCommand::SaveConfig => "SAVE_CONFIG"@,
        WpaCommand::Unknown(cmd) => cmd@,
    }
}

/// Appends `prefix` and then the decimal text of `id`.
fn push_with_id(s: &mut String, prefix: &str, id: i32)
    ensures
        final(s)@ == old(s)@ + prefix@ + int_text(id as int),
{
    append_str(s, prefix);
    push_signed_decimal(s, id as i64);
}

impl WpaCommand {
    /// The wire string sent to wpa_supplicant.
    pub fn to_string(&self) -> (r: String)
        ensures
            r@ == wire_text(*self),
    {
        let mut s = String::new();
        match self {
            WpaCommand::Bss { addr } => {
                append_str(&mut s, "BSS ");
                append_str(&mut s, addr.as_str());
            },
            WpaCommand::Ping => append_str(&mut s, "PING"),
            WpaCommand::Scan => append_str(&mut s, "SCAN"),
            WpaCommand::ScanResults => append_str(&mut s, "SCAN_RESULTS"),
            WpaCommand::Status => append_str(&mut s, "STATUS"),
            WpaCommand::SetParam { key, value } => {
                append_str(&mut s, "SET ");
                append_str(&mut s, key.as_str());
                push_char(&mut s, ' ');
                append_str(&mut s, value.as_str());
                proof {
                    reveal_strlit(" ");
                }
            },
            WpaCommand::AddNetwork => append_str(&mut s, "ADD_NETWORK"),
            WpaCommand::SetNetwork { id, key, value } => {
                push_with_id(&mut s, "SET_NETWORK ", *id);
                push_char(&mut s, ' ');
                append_str(&mut s, key.as_str());
                push_char(&mut s, ' ');
                append_str(&mut s, value.as_str());
                proof {
                    reveal_strlit(" ");
                }
            },
            WpaCommand::GetNetwork { id, key } => {
                push_with_id(&mut s, "GET_NETWORK ", *id);
                push_char(&mut s, ' ');
                append_str(&mut s, key.as_str());
                proof {
                    reveal_strlit(" ");
                }
            },
            WpaCommand::ListNetworks => append_str(&mut s, "LIST_NETWORKS"),
            WpaCommand::EnableNetwork { id } => push_with_id(&mut s, "ENABLE_NETWORK ", *id),
            WpaCommand::DisableNetwork { id } => push_with_id(&mut s, "DISABLE_NETWORK ", *id),
            WpaCommand::RemoveNetwork { id } => push_with_id(&mut s, "REMOVE_NETWORK ", *id),
            WpaCommand::SelectNetwork { id } => match id {
                Some(n) => push_with_id(&mut s, "SELECT_NETWORK ", *n),
                None => append_str(&mut s, "SELECT_NETWORK any"),
            },
            WpaCommand::Reassociate => append_str(&mut s, "REASSOCIATE"),
            WpaCommand::Reconfigure => append_str(&mut s, "RECONFIGURE"),
            WpaCommand::Disconnect => append_str(&mut s, "DISCONNECT"),
            WpaCommand::Reconnect => append_str(&mut s, "RECONNECT"),
            WpaCommand::Attach => append_str(&mut s, "ATTACH"),
            WpaCommand::Detach => append_str(&mut s, "DETACH"),
            WpaCommand::SaveConfig => append_str(&mut s, "SAVE_CONFIG"),
            WpaCommand::Unknown(cmd) => append_str(&mut s, cmd.as_str()),
        }
        proof {
            reveal_strlit("");
            assert(""@ == Seq::<char>::empty());
        }
        assert(s@ =~= wire_text(*self));
        s
    }
}


/// What a WiFi manager does when wpa_supplicant reports an event.
#[derive(Debug, Clone, Copy, PartialEq, Eq, Structural)]
pub enum EventReaction {
    /// Fetch the scan results again, and announce them
    RefreshScanResults,
    /// Fetch the status again, and announce it
    RefreshStatus,
    /// Nothing
    Ignore,
}

/// The reaction to an event: new scan results are fetched; a change of
/// state, association, connection or disconnection refreshes the status.
pub open spec fn event_reaction_of(e: WpaEvent) -> EventReaction {
    match e {
        WpaEvent::ScanResults => EventReaction::RefreshScanResults,
        WpaEvent::StateChange { .. } | WpaEvent::Associated { .. } | WpaEvent::Disconnected {
            ..
        } | WpaEvent::Connected { .. } => EventReaction::RefreshStatus,
        _ => EventReaction::Ignore,
    }
}

/// Decides how to react to an event of wpa_supplicant.
pub fn event_reaction(event: &WpaEvent) -> (r: EventReaction)
    ensures
        r == event_reaction_of(*event),
{
    match event {
        WpaEvent::ScanResults => EventReaction::RefreshScanResults,
        WpaEvent::StateChange { .. } | WpaEvent::Associated { .. } | WpaEvent::Disconnected {
            ..
        } | WpaEvent::Connected { .. } => EventReaction::RefreshStatus,
        _ => EventReaction::Ignore,
    }
}

/// The known networks as they are answered to a client: without their
/// passwords.
pub fn redact_passwords(networks: Vec<KnownNetwork>) -> (r: Vec<KnownNetwork>)
    ensures
        r@.len() == networks@.len(),
        forall|i: int|
            0 <= i < r@.len() ==> (#[trigger] r@[i]).password is None && r@[i]@ == (KnownNetworkView {
                password: None,
                ..networks@[i]@
            }),
{
    let mut rest = networks;
    let ghost orig = rest@;
    let mut out: Vec<KnownNetwork> = Vec::new();
    while rest.len() > 0
        invariant
            out@.len() + rest@.len() == orig.len(),
            rest@ == orig.skip(out@.len() as int),
            forall|i: int|
                0 <= i < out@.len() ==> (#[trigger] out@[i]).password is None && out@[i]@ == (
                KnownNetworkView { password: None, ..orig[i]@ }),
        decreases rest@.len(),
    {
        let ghost k = out@.len() as int;
        let mut n = rest.remove(0);
        proof {
            assert(n == orig[k]);
            assert(rest@ =~= orig.skip(k + 1));
        }
        n.password = None;
        out.push(n);
    }
    out
}

} // verus!
