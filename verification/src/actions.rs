//! The terminal client's decisions between its requests to the daemon:
//! which WLAN interface it talks to, what opening, deleting or creating a
//! profile comes to, how a hostname is checked, how an answer reads as a
//! failure, and what polling a connection finds.
use vstd::prelude::*;

use crate::daemon::GlobalDaemonResponse;
use crate::interface::InterfaceInfo;
use crate::mac::MacAddr;
use crate::network::KnownNetwork;
use crate::rows::{
    EditRow, EditTarget, EditTargetView, find_named, first_named, first_wifi,
    opt_text, wifi_iface_of,
};
use crate::status::WpaState;
use crate::text::{append_str, copy_string, string_of, trim, trim_str};
use crate::known::copy_known;

verus! {

/// The WLAN interface kept after the interface list is refreshed: the
/// first WLAN interface of the list, or none when the list has none.
pub fn clamp_wifi_iface(interfaces: &Vec<InterfaceInfo>) -> (r: Option<String>)
    ensures
        opt_text(r) == crate::rows::first_wlan_name(interfaces@),
{
    first_wifi(&None, interfaces)
}

/// What opening the selected row of the edit screen comes to.
#[derive(Debug, Clone)]
pub enum EditOpen {
    /// The selection has no target, or names no interface of the list.
    Nothing,
    /// Edit the interface at this index of the list.
    Interface(usize),
    /// Edit the saved network on this WLAN interface.
    Network(KnownNetwork, String),
    /// A saved network, but no WLAN interface to edit it on.
    NoWifi,
}

/// Decides what opening the selected row does.
pub fn edit_open(
    rows: &Vec<EditRow>,
    selected: usize,
    interfaces: &Vec<InterfaceInfo>,
    wifi_iface: &Option<String>,
) -> (r: EditOpen)
    ensures
        match r {
            EditOpen::Nothing => selected >= rows@.len() || rows@[selected as int]@.target is None
                || (rows@[selected as int]@.target matches Some(EditTargetView::Interface(n))
                && first_named(interfaces@, n) is None),
            EditOpen::Interface(k) => selected < rows@.len() && (rows@[selected as int]@.target
                matches Some(EditTargetView::Interface(n)) && first_named(interfaces@, n) == Some(
                k as nat,
            )),
            EditOpen::Network(k, iface) => selected < rows@.len() && rows@[selected as int]@.target
                == Some(EditTargetView::Network(k@)) && wifi_iface_of(*wifi_iface, interfaces@)
                == Some(iface@),
            EditOpen::NoWifi => selected < rows@.len() && (rows@[selected as int]@.target matches Some(
                EditTargetView::Network(_),
            )) && wifi_iface_of(*wifi_iface, interfaces@) is None,
        },
{
    if selected >= rows.len() {
        return EditOpen::Nothing;
    }
    let row = &rows[selected];
    assert(rows@[selected as int] == *row);
    match &row.target {
        None => EditOpen::Nothing,
        Some(EditTarget::Interface(name)) => match find_named(interfaces, name) {
            Some(k) => EditOpen::Interface(k),
            None => EditOpen::Nothing,
        },
        Some(EditTarget::Network(k)) => match first_wifi(wifi_iface, interfaces) {
            Some(iface) => EditOpen::Network(copy_known(k), iface),
            None => EditOpen::NoWifi,
        },
    }
}

/// The saved network the selected row of the edit screen names, to be
/// deleted: its SSID and BSSID; none when the row is not a saved network.
pub fn delete_target(rows: &Vec<EditRow>, selected: usize) -> (r: Option<(String, Option<MacAddr>)>)
    ensures
        match r {
            Some((ssid, bssid)) => selected < rows@.len() && (rows@[selected as int]@.target matches Some(
                EditTargetView::Network(k),
            ) && k.ssid == ssid@ && k.bssid == (match bssid {
                Some(b) => Some(b@),
                None => None::<Seq<u8>>,
            })),
            None => !(selected < rows@.len() && (rows@[selected as int]@.target matches Some(
                EditTargetView::Network(_),
            ))),
        },
{
    if selected >= rows.len() {
        return None;
    }
    match &rows[selected].target {
        Some(EditTarget::Network(k)) => Some((copy_string(&k.ssid), k.bssid)),
        _ => None,
    }
}

/// What creating a connection of the picked type comes to.
#[derive(Debug, Clone)]
pub enum CreateStep {
    /// Open a Wi-Fi editor on this interface.
    WifiEditor(String),
    /// No WLAN interface to create a Wi-Fi profile on.
    NoWifi,
    /// The daemon does not handle this type; the message says so.
    Unsupported(String),
}

/// The connection types the new-connection popup offers, in order.
pub open spec fn connection_type_name(k: nat) -> Seq<char> {
    if k == 0 {
        "Wi-Fi"@
    } else if k == 1 {
        "Bond"@
    } else if k == 2 {
        "Bridge"@
    } else if k == 3 {
        "Team"@
    } else {
        "VLAN"@
    }
}

/// The name of a connection type.
pub fn connection_type(k: usize) -> (r: &'static str)
    requires
        k < 5,
    ensures
        r@ == connection_type_name(k as nat),
{
    if k == 0 {
        "Wi-Fi"
    } else if k == 1 {
        "Bond"
    } else if k == 2 {
        "Bridge"
    } else if k == 3 {
        "Team"
    } else {
        "VLAN"
    }
}

/// Decides what creating a connection of type `selected` does: only Wi-Fi
/// profiles are created, on the WLAN interface in use.
pub fn create_step(selected: usize, wifi_iface: &Option<String>, interfaces: &Vec<InterfaceInfo>) -> (r: CreateStep)
    requires
        selected < 5,
    ensures
        match r {
            CreateStep::WifiEditor(iface) => selected == 0 && wifi_iface_of(*wifi_iface, interfaces@)
                == Some(iface@),
            CreateStep::NoWifi => selected == 0 && wifi_iface_of(*wifi_iface, interfaces@) is None,
            CreateStep::Unsupported(m) => selected != 0 && m@ == connection_type_name(selected as nat)
                + " connections are not supported by this daemon yet"@,
        },
{
    if selected == 0 {
        match first_wifi(wifi_iface, interfaces) {
            Some(iface) => CreateStep::WifiEditor(iface),
            None => CreateStep::NoWifi,
        }
    } else {
        let mut m = String::new();
        append_str(&mut m, connection_type(selected));
        append_str(&mut m, " connections are not supported by this daemon yet");
        CreateStep::Unsupported(m)
    }
}

/// The hostname to send: the input trimmed, when anything is left.
pub fn hostname_to_save(input: &str) -> (r: Option<String>)
    ensures
        match r {
            Some(n) => trim(input@).len() > 0 && n@ == trim(input@),
            None => trim(input@).len() == 0,
        },
{
    let t = trim_str(input);
    if t.len() == 0 {
        None
    } else {
        Some(string_of(t.as_slice()))
    }
}

/// The failure a global answer of the daemon reports, if any.
pub fn global_failure(response: &GlobalDaemonResponse) -> (r: Option<String>)
    ensures
        match *response {
            GlobalDaemonResponse::Error { message } => r matches Some(m) && m@ == message@,
            GlobalDaemonResponse::WiFiInterfaceNotFound { iface } => r matches Some(m) && m@
                == "Wi-Fi interface not found: "@ + iface@,
            _ => r is None,
        },
{
    match response {
        GlobalDaemonResponse::Error { message } => Some(copy_string(message)),
        GlobalDaemonResponse::WiFiInterfaceNotFound { iface } => {
            let mut m = String::new();
            append_str(&mut m, "Wi-Fi interface not found: ");
            append_str(&mut m, iface.as_str());
            Some(m)
        },
        _ => None,
    }
}

/// What polling a connection attempt finds.
#[derive(Debug, Clone)]
pub enum PollStep {
    /// wpa_supplicant completed the connection.
    Connected,
    /// The connection failed; the message says how.
    Failed(String),
    /// Still under way.
    Waiting,
}

/// The text of a reported state, as `{:?}` writes it.
pub open spec fn state_debug_text(s: WpaState) -> Seq<char> {
    match s {
        WpaState::Disconnected => "Some(Disconnected)"@,
        _ => "Some(InterfaceDisabled)"@,
    }
}

/// Decides what a polled status means for the connection to `ssid`:
/// completed is connected; disconnected or a disabled interface is a
/// failure, reported as the SSID and the state; anything else waits.
pub fn poll_step(ssid: &str, state: Option<WpaState>) -> (r: PollStep)
    ensures
        match state {
            Some(WpaState::Completed) => r is Connected,
            Some(WpaState::Disconnected) | Some(WpaState::InterfaceDisabled) => r matches PollStep::Failed(
                m,
            ) && m@ == ssid@ + ": "@ + state_debug_text(state.unwrap()),
            _ => r is Waiting,
        },
{
    match state {
        Some(WpaState::Completed) => PollStep::Connected,
        Some(WpaState::Disconnected) => {
            let mut m = String::new();
            append_str(&mut m, ssid);
            append_str(&mut m, ": ");
            append_str(&mut m, "Some(Disconnected)");
            PollStep::Failed(m)
        },
        Some(WpaState::InterfaceDisabled) => {
            let mut m = String::new();
            append_str(&mut m, ssid);
            append_str(&mut m, ": ");
            append_str(&mut m, "Some(InterfaceDisabled)");
            PollStep::Failed(m)
        },
        _ => PollStep::Waiting,
    }
}

} // verus!
