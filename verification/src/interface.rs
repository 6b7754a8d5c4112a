//! Network interfaces: their kinds, link parameters and addresses.
use vstd::prelude::*;

use crate::ip::{PrefixedIpAddr, PrefixedIpv4Addr, PrefixedIpv6Addr};
use crate::mac::MacAddr;
use crate::state::ConnectionState;

verus! {

/// Type of network interface.
#[derive(Debug, Clone, Copy, PartialEq, Eq, Hash, Structural)]
pub enum InterfaceType {
    Bridge,
    Tun,
    Vlan,
    Vxlan,
    GreTun,
    Wireguard,
    Loopback,
    Wlan,
    Ethernet,
    Lagg,
    Usbus,
    Tap,
    Vmnet,
    Openvpn,
    Stf,
    Epair,
    Enc,
    Pflog,
    Pfsync,
    Ipfw,
    Ipfwlog,
    Disc,
    Me,
    Edsc,
    Ipsec,
    Gif,
    Other,
}

impl Default for InterfaceType {
    fn default() -> (r: Self)
        ensures
            r == InterfaceType::Other,
    {
        InterfaceType::Other
    }
}

/// A change to a value or a list of values.
#[derive(Debug, Clone, Copy, PartialEq, Eq, Hash)]
pub enum Modification<T> {
    /// Update or Add the value
    Append(T),
    /// Remove the value
    Remove(T),
    /// Replace with the value
    Replace(T),
    /// Clear all values
    Clear,
    /// No change
    NoChange,
}

impl<T> Default for Modification<T> {
    fn default() -> (r: Self)
        ensures
            r is NoChange,
    {
        Modification::NoChange
    }
}

/// Regulatory domain of a wireless interface.
#[derive(Debug, Clone, Copy, PartialEq, Eq, Hash, Structural)]
pub enum RegDomain {
    Fcc,
}

impl Default for RegDomain {
    fn default() -> (r: Self)
        ensures
            r == RegDomain::Fcc,
    {
        RegDomain::Fcc
    }
}

/// Country of a wireless interface.
#[derive(Debug, Clone, Copy, PartialEq, Eq, Hash, Structural)]
pub enum CountryCode {
    US,
}

impl Default for CountryCode {
    fn default() -> (r: Self)
        ensures
            r == CountryCode::US,
    {
        CountryCode::US
    }
}

/// Operating mode of a wireless interface.
#[derive(Debug, Clone, Copy, PartialEq, Eq, Hash, Structural)]
pub enum WlanMode {
    /// Station
    Sta,
    /// Access point
    HostAp,
    /// Ad-hoc (IBSS)
    Adhoc,
}

impl Default for WlanMode {
    fn default() -> (r: Self)
        ensures
            r == WlanMode::Sta,
    {
        WlanMode::Sta
    }
}

/// Link aggregation protocol of a lagg interface.
#[derive(Debug, Clone, Copy, PartialEq, Eq, Hash, Structural)]
pub enum LaggProtocol {
    Failover,
    Lacp,
    Loadbalance,
    Roundrobin,
    Broadcast,
    /// No aggregation protocol (`none`)
    NoProtocol,
}

/// Parameters for creating a WLAN interface.
#[derive(Debug, Clone, Copy, PartialEq, Eq, Hash, Structural)]
pub struct WlanLinkOptions {
    pub regdomain: RegDomain,
    pub region: CountryCode,
    pub mode: WlanMode,
}

impl Default for WlanLinkOptions {
    fn default() -> (r: Self)
        ensures
            r.regdomain == RegDomain::Fcc,
            r.region == CountryCode::US,
            r.mode == WlanMode::Sta,
    {
        WlanLinkOptions {
            regdomain: RegDomain::default(),
            region: CountryCode::default(),
            mode: WlanMode::default(),
        }
    }
}

/// Parameters for creating a logical interface.
#[derive(Debug, Clone)]
pub enum LinkOptions {
    Wlan { parent: String, options: WlanLinkOptions },
    Bridge { members: Vec<String> },
    Lagg { protocol: LaggProtocol, members: Vec<String> },
    Vlan { parent: String, tag: u16 },
}

/// Information about a network interface.
#[derive(Debug, Clone)]
pub struct InterfaceInfo {
    /// Interface ID, typically the index assigned by the OS
    pub id: u32,
    /// Interface name (e.g., "wlan0")
    pub name: String,
    /// Connection state
    pub state: ConnectionState,
    /// Interface type
    pub interface_type: InterfaceType,
    /// MAC address
    pub mac_addr: Option<MacAddr>,
    /// IPv4 addresses and their prefix lengths
    pub ipv4_addrs: Vec<PrefixedIpv4Addr>,
    /// IPv6 addresses and their prefix lengths
    pub ipv6_addrs: Vec<PrefixedIpv6Addr>,
    /// IPv4 gateway address
    pub gateway_ipv4: Option<PrefixedIpv4Addr>,
    /// IPv6 gateway address
    pub gateway_ipv6: Option<PrefixedIpv6Addr>,
    /// DHCPv4 enable flag
    pub dhcpv4_enabled: bool,
    /// SLAAC (kernel Router Advertisement) enabled flag
    pub slaac_enabled: bool,
    /// Parent interface (for wlan devices)
    pub parent: Option<String>,
}

/// Whether an interface holds an address, in the list of its family.
pub open spec fn holds_addr(
    v4: Seq<PrefixedIpv4Addr>,
    v6: Seq<PrefixedIpv6Addr>,
    addr: PrefixedIpAddr,
) -> bool {
    match addr {
        PrefixedIpAddr::V4(a) => v4.contains(a),
        PrefixedIpAddr::V6(a) => v6.contains(a),
    }
}

impl InterfaceInfo {
    /// A new interface with just an index and a name: state not applicable,
    /// type other, DHCPv4 on, SLAAC off, no addresses.
    pub fn new(id: u32, name: &str) -> (r: InterfaceInfo)
        ensures
            r.id == id,
            r.name@ == name@,
            r.state == ConnectionState::NotApplicable,
            r.interface_type == InterfaceType::Other,
            r.mac_addr.is_none(),
            r.ipv4_addrs@.len() == 0,
            r.ipv6_addrs@.len() == 0,
            r.gateway_ipv4.is_none(),
            r.gateway_ipv6.is_none(),
            r.dhcpv4_enabled,
            !r.slaac_enabled,
            r.parent.is_none(),
    {
        InterfaceInfo {
            id,
            name: name.to_owned(),
            state: ConnectionState::NotApplicable,
            interface_type: InterfaceType::Other,
            mac_addr: None,
            ipv4_addrs: Vec::new(),
            ipv6_addrs: Vec::new(),
            gateway_ipv4: None,
            gateway_ipv6: None,
            dhcpv4_enabled: true,
            slaac_enabled: false,
            parent: None,
        }
    }

    /// Adds an address to the list of its family.
    pub fn add_addr(&mut self, addr: PrefixedIpAddr)
        ensures
            final(self).ipv4_addrs@ == (match addr {
                PrefixedIpAddr::V4(a) => old(self).ipv4_addrs@.push(a),
                PrefixedIpAddr::V6(_) => old(self).ipv4_addrs@,
            }),
            final(self).ipv6_addrs@ == (match addr {
                PrefixedIpAddr::V4(_) => old(self).ipv6_addrs@,
                PrefixedIpAddr::V6(a) => old(self).ipv6_addrs@.push(a),
            }),
            final(self).id == old(self).id,
            final(self).name@ == old(self).name@,
            final(self).state == old(self).state,
            final(self).interface_type == old(self).interface_type,
            final(self).mac_addr == old(self).mac_addr,
            final(self).gateway_ipv4 == old(self).gateway_ipv4,
            final(self).gateway_ipv6 == old(self).gateway_ipv6,
            final(self).dhcpv4_enabled == old(self).dhcpv4_enabled,
            final(self).slaac_enabled == old(self).slaac_enabled,
            final(self).parent == old(self).parent,
    {
        match addr {
            PrefixedIpAddr::V4(v4) => self.ipv4_addrs.push(v4),
            PrefixedIpAddr::V6(v6) => self.ipv6_addrs.push(v6),
        }
    }

    /// Whether the interface holds the address.
    pub fn contains_addr(&self, addr: &PrefixedIpAddr) -> (r: bool)
        ensures
            r == holds_addr(self.ipv4_addrs@, self.ipv6_addrs@, *addr),
    {
        match *addr {
            PrefixedIpAddr::V4(v4) => {
                let mut i: usize = 0;
                while i < self.ipv4_addrs.len()
                    invariant
                        0 <= i <= self.ipv4_addrs@.len(),
                        *addr == PrefixedIpAddr::V4(v4),
                        forall|j: int| 0 <= j < i ==> self.ipv4_addrs@[j] != v4,
                    decreases self.ipv4_addrs@.len() - i,
                {
                    if self.ipv4_addrs[i] == v4 {
                        assert(self.ipv4_addrs@[i as int] == v4);
                        return true;
                    }
                    i = i + 1;
                }
                false
            },
            PrefixedIpAddr::V6(v6) => {
                let mut i: usize = 0;
                while i < self.ipv6_addrs.len()
                    invariant
                        0 <= i <= self.ipv6_addrs@.len(),
                        *addr == PrefixedIpAddr::V6(v6),
                        forall|j: int| 0 <= j < i ==> self.ipv6_addrs@[j] != v6,
                    decreases self.ipv6_addrs@.len() - i,
                {
                    if self.ipv6_addrs[i] == v6 {
                        assert(self.ipv6_addrs@[i as int] == v6);
                        return true;
                    }
                    i = i + 1;
                }
                false
            },
        }
    }

    /// Whether this is a WLAN interface.
    pub fn is_wlan(&self) -> (r: bool)
        ensures
            r == (self.interface_type == InterfaceType::Wlan),
    {
        self.interface_type == InterfaceType::Wlan
    }
}

impl Default for InterfaceInfo {
    fn default() -> (r: Self)
        ensures
            r.id == 0,
            r.name@.len() == 0,
            r.state == ConnectionState::NotApplicable,
            r.interface_type == InterfaceType::Other,
            r.mac_addr.is_none(),
            r.ipv4_addrs@.len() == 0,
            r.ipv6_addrs@.len() == 0,
            r.gateway_ipv4.is_none(),
            r.gateway_ipv6.is_none(),
            r.dhcpv4_enabled,
            !r.slaac_enabled,
            r.parent.is_none(),
    {
        proof {
            reveal_strlit("");
        }
        InterfaceInfo::new(0, "")
    }
}

/// Adding an address makes the interface hold it.
pub proof fn lemma_add_then_contains(
    v4: Seq<PrefixedIpv4Addr>,
    v6: Seq<PrefixedIpv6Addr>,
    addr: PrefixedIpAddr,
)
    ensures
        holds_addr(
            match addr {
                PrefixedIpAddr::V4(a) => v4.push(a),
                PrefixedIpAddr::V6(_) => v4,
            },
            match addr {
                PrefixedIpAddr::V4(_) => v6,
                PrefixedIpAddr::V6(a) => v6.push(a),
            },
            addr,
        ),
{
    match addr {
        PrefixedIpAddr::V4(a) => {
            assert(v4.push(a)[v4.len() as int] == a);
        },
        PrefixedIpAddr::V6(a) => {
            assert(v6.push(a)[v6.len() as int] == a);
        },
    }
}

} // verus!
