//! Error types of the daemon's subsystems.
use vstd::prelude::*;

use crate::mac::MacAddr;
use crate::text::append_str;
use crate::wifi::WpaCommand;

verus! {

/// An operating-system I/O error, held by its message.
#[derive(Debug, Clone)]
pub struct IoError {
    pub message: String,
}

/// The display text of an `IoError`.
pub open spec fn io_error_text(message: Seq<char>) -> Seq<char> {
    "I/O error: "@ + message
}

impl IoError {
    /// The display text `I/O error: <message>`.
    pub fn to_string(&self) -> (r: String)
        ensures
            r@ == io_error_text(self.message@),
    {
        let mut s = String::new();
        append_str(&mut s, "I/O error: ");
        append_str(&mut s, self.message.as_str());
        proof {
            reveal_strlit("");
        }
        assert(s@ =~= io_error_text(self.message@));
        s
    }
}

/// Errors of interface configuration.
#[derive(Debug, Clone)]
pub enum IfconfigError {
    IoError(IoError),
    NulError(String),
    RuntimeError(String),
}

/// The display text of an `IfconfigError`.
pub open spec fn ifconfig_error_text(e: IfconfigError) -> Seq<char> {
    match e {
        IfconfigError::IoError(io) => "IO Error: "@ + io_error_text(io.message@),
        IfconfigError::NulError(m) => "Nul Error: "@ + m@,
        IfconfigError::RuntimeError(m) => "Runtime Error: "@ + m@,
    }
}

impl IfconfigError {
    /// The display text of the error.
    pub fn to_string(&self) -> (r: String)
        ensures
            r@ == ifconfig_error_text(*self),
    {
        let mut s = String::new();
        match self {
            IfconfigError::IoError(io) => {
                append_str(&mut s, "IO Error: ");
                let t = io.to_string();
                append_str(&mut s, t.as_str());
            },
            IfconfigError::NulError(m) => {
                append_str(&mut s, "Nul Error: ");
                append_str(&mut s, m.as_str());
            },
            IfconfigError::RuntimeError(m) => {
                append_str(&mut s, "Runtime Error: ");
                append_str(&mut s, m.as_str());
            },
        }
        proof {
            reveal_strlit("");
        }
        assert(s@ =~= ifconfig_error_text(*self));
        s
    }
}

/// Errors that can occur during WiFi operations.
#[derive(Debug, Clone)]
pub enum WifiError {
    /// WPA control error
    WpaCtrl(WpaCtrlError),
    /// Scan failed
    ScanFailed,
    /// Failed to get scan results
    GetScanResultsFailed,
    /// SSID not available
    SsidUnavailable { ssid: String },
    /// Known network not found for the given SSID/BSSID
    KnownNetworkNotFound { ssid: String, bssid: Option<MacAddr> },
    /// BSSID is required to connect to this SSID
    BssidRequired { ssid: String },
    /// Failed to add network
    AddNetworkFailed,
    /// Failed to configure network
    ConfigureNetworkFailed { nwid: i32 },
    /// Failed to remove network
    RemoveNetworkFailed { nwid: i32 },
    /// Failed to connect
    ConnectFailed,
    /// Failed to disconnect
    DisconnectFailed,
    /// Failed to save configuration
    SaveConfigFailed,
    /// Invalid password length
    InvalidPasswordLength { min: usize, max: usize },
    /// Failed to parse response
    ParseError(String),
    /// Network not found
    NetworkNotFound { nwid: i32 },
    /// Operation not supported
    NotSupported(String),
    /// WPA Supplicant already running
    WpaSupplicantRunning(String),
    /// Failed to start WPA Supplicant
    SupplicantStartFailed(String),
    /// Other error
    Other(String),
}

/// Errors of the wpa_supplicant control socket.
#[derive(Debug, Clone)]
pub enum WpaSocketError {
    SocketCreationFailed(IoError),
    BindFailed(IoError),
    ConnectFailed(IoError),
    SendFailed(IoError),
    RecvFailed(IoError),
    InvalidPath,
}

/// Errors that can occur when communicating with wpa_supplicant.
#[derive(Debug, Clone)]
pub enum WpaCtrlError {
    /// Failed to send command
    SendFailed { cmd: WpaCommand, source: WpaSocketError },
    /// Socket Error
    SocketError(WpaSocketError),
    /// Io error
    IoError(IoError),
    /// Request timed out
    Timeout,
    /// ATTACH command failed
    AttachFailed,
    /// DETACH command failed
    DetachFailed,
    /// wpa_supplicant returned an error
    CommandFailed(String),
    /// Failed to parse response
    ParseError(String),
    /// Failed to wait for event
    WaitEventFailed { event: String },
    /// No default control interface found
    NoDefaultPath,
}

/// Errors of the route manager.
#[derive(Debug, Clone)]
pub enum RouteManagerError {
    IoError(IoError),
}

/// Errors talking to the daemon socket.
#[derive(Debug, Clone)]
pub enum ClientError {
    Connect(IoError),
    Write(IoError),
    Read(IoError),
    /// The daemon answered with an error
    Daemon(String),
    /// The answer is not valid JSON
    Parse(String),
}

} // verus!
