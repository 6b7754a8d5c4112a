//! Requests and answers of the daemon's global subsystem.
use vstd::prelude::*;

use crate::interface::{InterfaceInfo, InterfaceType};
use crate::state::ConnectionState;
use crate::status::WpaState;
use crate::text::{chars_of, copy_string, push_char};
use crate::wifi::WiFiManagerAction;

verus! {

/// An answer of the global subsystem.
#[derive(Debug, Clone)]
pub enum GlobalDaemonResponse {
    /// Acknowledgment of connection establishment
    Established,
    /// Acknowledgment of shutdown command
    ShutdownAck,
    /// WiFi Interface not found
    WiFiInterfaceNotFound { iface: String },
    /// General error response
    Error { message: String },
    /// Current or newly applied system hostname.
    Hostname(String),
}

/// A request to the global subsystem.
#[derive(Debug, Clone)]
pub enum GlobalDaemonAction {
    /// Shutdown current connection
    Shutdown,
    /// Read the system hostname.
    GetHostname,
    /// Apply a new system hostname.
    SetHostname { name: String },
}


/// The interface state that a WiFi status reports, if any.
pub open spec fn connection_state_for_status(state: Option<WpaState>) -> Option<ConnectionState> {
    match state {
        Some(WpaState::InterfaceDisabled) => Some(ConnectionState::Disabled),
        Some(WpaState::Unknown) => Some(ConnectionState::NotApplicable),
        Some(WpaState::Completed) => Some(ConnectionState::Connected),
        Some(WpaState::Disconnected) | Some(WpaState::Inactive) | Some(WpaState::Scanning) => Some(
            ConnectionState::NoCarrier,
        ),
        Some(_) => Some(ConnectionState::Up),
        None => None,
    }
}

/// The state to record for a WLAN interface when its supplicant reports a
/// status.
pub fn connection_state_for(state: Option<WpaState>) -> (r: Option<ConnectionState>)
    ensures
        r == connection_state_for_status(state),
{
    match state {
        Some(WpaState::InterfaceDisabled) => Some(ConnectionState::Disabled),
        Some(WpaState::Unknown) => Some(ConnectionState::NotApplicable),
        Some(WpaState::Completed) => Some(ConnectionState::Connected),
        Some(WpaState::Disconnected) | Some(WpaState::Inactive) | Some(WpaState::Scanning) => Some(
            ConnectionState::NoCarrier,
        ),
        Some(_) => Some(ConnectionState::Up),
        None => None,
    }
}

/// A reply line as it is written to a client: ending in a newline.
pub fn terminate_line(msg: String) -> (r: String)
    ensures
        r@ == (if msg@.len() > 0 && msg@.last() == '\n' {
            msg@
        } else {
            msg@.push('\n')
        }),
{
    let cs = chars_of(msg.as_str());
    let mut msg = msg;
    if cs.len() == 0 || cs[cs.len() - 1] != '\n' {
        push_char(&mut msg, '\n');
    }
    msg
}


/// Which kind of interface event the daemon received.
#[derive(Debug, Clone, Copy, PartialEq, Eq, Structural)]
pub enum InterfaceEventKind {
    Added,
    Removed,
    Changed,
}

/// The per-interface managers to start or stop for an event.
#[derive(Debug, Clone, Copy, PartialEq, Eq, Structural)]
pub struct SupervisorPlan {
    pub start_wifi: bool,
    pub stop_wifi: bool,
    pub start_dhcp: bool,
    pub stop_dhcp: bool,
}

/// What an interface event does to the per-interface managers: a new WLAN
/// gets a WiFi manager and a removed one loses it; a DHCP client runs on an
/// interface with DHCPv4 on, a MAC address and a link that is up, and is
/// stopped when DHCPv4 is switched off or the link goes down.
pub open spec fn supervisor_plan(
    kind: InterfaceEventKind,
    is_wlan: bool,
    dhcpv4_enabled: bool,
    state: ConnectionState,
    has_mac: bool,
    dhcp_running: bool,
) -> SupervisorPlan {
    let up = state == ConnectionState::Up || state == ConnectionState::Connected;
    match kind {
        InterfaceEventKind::Added => SupervisorPlan {
            start_wifi: is_wlan,
            stop_wifi: false,
            start_dhcp: dhcpv4_enabled && state == ConnectionState::Up && !dhcp_running && has_mac,
            stop_dhcp: false,
        },
        InterfaceEventKind::Removed => SupervisorPlan {
            start_wifi: false,
            stop_wifi: is_wlan,
            start_dhcp: false,
            stop_dhcp: false,
        },
        InterfaceEventKind::Changed => SupervisorPlan {
            start_wifi: false,
            stop_wifi: false,
            start_dhcp: dhcpv4_enabled && up && !dhcp_running && has_mac,
            stop_dhcp: dhcp_running && (!dhcpv4_enabled || !up),
        },
    }
}

/// Decides which per-interface managers an interface event starts or stops.
pub fn plan_supervisors(kind: InterfaceEventKind, info: &InterfaceInfo, dhcp_running: bool) -> (r:
    SupervisorPlan)
    ensures
        r == supervisor_plan(
            kind,
            info.interface_type == InterfaceType::Wlan,
            info.dhcpv4_enabled,
            info.state,
            info.mac_addr is Some,
            dhcp_running,
        ),
{
    let is_wlan = info.is_wlan();
    let has_mac = info.mac_addr.is_some();
    let up = info.state == ConnectionState::Up || info.state == ConnectionState::Connected;
    match kind {
        InterfaceEventKind::Added => SupervisorPlan {
            start_wifi: is_wlan,
            stop_wifi: false,
            start_dhcp: info.dhcpv4_enabled && info.state == ConnectionState::Up && !dhcp_running
                && has_mac,
            stop_dhcp: false,
        },
        InterfaceEventKind::Removed => SupervisorPlan {
            start_wifi: false,
            stop_wifi: is_wlan,
            start_dhcp: false,
            stop_dhcp: false,
        },
        InterfaceEventKind::Changed => {
            if !info.dhcpv4_enabled {
                SupervisorPlan { start_wifi: false, stop_wifi: false, start_dhcp: false, stop_dhcp: dhcp_running }
            } else if !up {
                SupervisorPlan { start_wifi: false, stop_wifi: false, start_dhcp: false, stop_dhcp: dhcp_running }
            } else {
                SupervisorPlan {
                    start_wifi: false,
                    stop_wifi: false,
                    start_dhcp: !dhcp_running && has_mac,
                    stop_dhcp: false,
                }
            }
        },
    }
}

/// A DHCP client is never both started and stopped by one event, and only
/// a WLAN gets or loses a WiFi manager.
pub proof fn lemma_supervisor_plan_consistent(
    kind: InterfaceEventKind,
    is_wlan: bool,
    dhcpv4_enabled: bool,
    state: ConnectionState,
    has_mac: bool,
    dhcp_running: bool,
)
    ensures
        !(supervisor_plan(kind, is_wlan, dhcpv4_enabled, state, has_mac, dhcp_running).start_dhcp
            && supervisor_plan(kind, is_wlan, dhcpv4_enabled, state, has_mac, dhcp_running).stop_dhcp),
        supervisor_plan(kind, is_wlan, dhcpv4_enabled, state, has_mac, dhcp_running).start_dhcp
            ==> !dhcp_running && has_mac && dhcpv4_enabled,
        supervisor_plan(kind, is_wlan, dhcpv4_enabled, state, has_mac, dhcp_running).stop_dhcp
            ==> dhcp_running,
        (supervisor_plan(kind, is_wlan, dhcpv4_enabled, state, has_mac, dhcp_running).start_wifi
            || supervisor_plan(kind, is_wlan, dhcpv4_enabled, state, has_mac, dhcp_running).stop_wifi)
            ==> is_wlan,
{
}

/// What a client asked for, once its line is read.
#[derive(Debug, Clone)]
pub enum ClientRequest {
    /// End the client's session.
    Shutdown,
    /// A request to the WiFi manager of an interface.
    Wifi { iface: String, action: WiFiManagerAction },
    /// A request to the interface manager; `subscribe` when it asks for the
    /// event stream.
    Interface { subscribe: bool },
}

/// What the client handler does with a request.
#[derive(Debug, Clone)]
pub enum ClientStep {
    /// Acknowledge with `ShutdownAck` and stop serving the client.
    Shutdown,
    /// Answer with this and do nothing else.
    Reply(GlobalDaemonResponse),
    /// Pass the WiFi manager's event stream on to the client.
    SubscribeWifi,
    /// Store the network's credentials, then forward the action.
    SaveThenForward,
    /// Forget the network's stored credentials, then forward the action.
    ForgetThenForward,
    /// Forward the action to the WiFi manager and relay its answer.
    ForwardWifi,
    /// Pass the interface manager's event stream on to the client.
    SubscribeInterface,
    /// Forward the action to the interface manager and relay its answer.
    ForwardInterface,
}

/// Decides what the client handler does with a request: a WiFi request for
/// an interface without a WiFi manager is answered `WiFiInterfaceNotFound`;
/// adding or removing a network changes the stored credentials before the
/// request goes on.
pub fn client_step(request: &ClientRequest, wifi_manager_found: bool) -> (r: ClientStep)
    ensures
        match *request {
            ClientRequest::Shutdown => r is Shutdown,
            ClientRequest::Wifi { iface, action } => if !wifi_manager_found {
                r matches ClientStep::Reply(GlobalDaemonResponse::WiFiInterfaceNotFound { iface: i })
                    && i@ == iface@
            } else {
                match action {
                    WiFiManagerAction::SubscribeEvents => r is SubscribeWifi,
                    WiFiManagerAction::AddNetwork { .. } => r is SaveThenForward,
                    WiFiManagerAction::RemoveNetwork { .. } => r is ForgetThenForward,
                    _ => r is ForwardWifi,
                }
            },
            ClientRequest::Interface { subscribe } => if subscribe {
                r is SubscribeInterface
            } else {
                r is ForwardInterface
            },
        },
{
    match request {
        ClientRequest::Shutdown => ClientStep::Shutdown,
        ClientRequest::Wifi { iface, action } => {
            if !wifi_manager_found {
                return ClientStep::Reply(
                    GlobalDaemonResponse::WiFiInterfaceNotFound { iface: copy_string(iface) },
                );
            }
            match action {
                WiFiManagerAction::SubscribeEvents => ClientStep::SubscribeWifi,
                WiFiManagerAction::AddNetwork { .. } => ClientStep::SaveThenForward,
                WiFiManagerAction::RemoveNetwork { .. } => ClientStep::ForgetThenForward,
                _ => ClientStep::ForwardWifi,
            }
        },
        ClientRequest::Interface { subscribe } => if *subscribe {
            ClientStep::SubscribeInterface
        } else {
            ClientStep::ForwardInterface
        },
    }
}

} // verus!
