//! Network connection state.
use vstd::prelude::*;

verus! {

/// How far a connected interface reaches.
#[derive(Debug, Clone, Copy, PartialEq, Eq, Hash, Structural)]
pub enum ConnectedState {
    /// Connected to the Internet
    Internet,
    /// Connected to a local network only
    Local,
}

/// The display text of a `ConnectedState`.
pub open spec fn connected_state_text(s: ConnectedState) -> Seq<char> {
    match s {
        ConnectedState::Internet => "Connected"@,
        ConnectedState::Local => "Local Only"@,
    }
}

impl Default for ConnectedState {
    fn default() -> (r: Self)
        ensures
            r == ConnectedState::Local,
    {
        ConnectedState::Local
    }
}

impl ConnectedState {
    /// The display text (`Connected`, `Local Only`).
    pub fn to_string(&self) -> (r: String)
        ensures
            r@ == connected_state_text(*self),
    {
        match self {
            ConnectedState::Internet => "Connected".to_owned(),
            ConnectedState::Local => "Local Only".to_owned(),
        }
    }
}

/// Network connection state of an interface.
#[derive(Debug, Clone, Copy, PartialEq, Eq, Hash, Structural)]
pub enum ConnectionState {
    /// Interface is active
    Up,
    /// Connected (has IP address)
    Connected,
    /// Disconnected (interface up but no connection)
    Disconnected,
    /// No carrier (physically disconnected or no carrier)
    NoCarrier,
    /// Disabled (interface down)
    Disabled,
    /// Not applicable / unknown
    NotApplicable,
    /// Unmanaged (not managed by the network daemon)
    Unmanaged,
}

/// The display text of a `ConnectionState`.
pub open spec fn connection_state_text(s: ConnectionState) -> Seq<char> {
    match s {
        ConnectionState::Up => "Up"@,
        ConnectionState::Connected => "Connected"@,
        ConnectionState::Disconnected => "Disconnected"@,
        ConnectionState::NoCarrier => "Unplugged"@,
        ConnectionState::Disabled => "Disabled"@,
        ConnectionState::NotApplicable => "N/A"@,
        ConnectionState::Unmanaged => "Unmanaged"@,
    }
}

impl Default for ConnectionState {
    fn default() -> (r: Self)
        ensures
            r == ConnectionState::NotApplicable,
    {
        ConnectionState::NotApplicable
    }
}

impl ConnectionState {
    /// The display text of the state.
    pub fn to_string(&self) -> (r: String)
        ensures
            r@ == connection_state_text(*self),
    {
        let s = match self {
            ConnectionState::Up => "Up",
            ConnectionState::Connected => "Connected",
            ConnectionState::Disconnected => "Disconnected",
            ConnectionState::NoCarrier => "Unplugged",
            ConnectionState::Disabled => "Disabled",
            ConnectionState::NotApplicable => "N/A",
            ConnectionState::Unmanaged => "Unmanaged",
        };
        s.to_owned()
    }

    /// Whether the interface is online (connected).
    pub fn is_online(&self) -> (r: bool)
        ensures
            r == (*self == ConnectionState::Connected),
    {
        matches!(self, ConnectionState::Connected)
    }

    /// Whether the interface is available for connection attempts.
    pub fn is_available(&self) -> (r: bool)
        ensures
            r == (*self == ConnectionState::Connected || *self == ConnectionState::Disconnected),
    {
        matches!(self, ConnectionState::Connected | ConnectionState::Disconnected)
    }

    /// Whether the interface is up.
    pub fn is_up(&self) -> (r: bool)
        ensures
            r == (*self == ConnectionState::Up || *self == ConnectionState::Connected || *self
                == ConnectionState::Disconnected),
    {
        matches!(
            self,
            ConnectionState::Up | ConnectionState::Connected | ConnectionState::Disconnected
        )
    }

    /// Whether the interface is managed by the daemon.
    pub fn is_managed(&self) -> (r: bool)
        ensures
            r == (*self != ConnectionState::Unmanaged),
    {
        !matches!(self, ConnectionState::Unmanaged)
    }
}

} // verus!
