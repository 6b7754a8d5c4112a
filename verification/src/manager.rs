//! Decisions of the interface manager: what a link request creates, which
//! address changes a modification makes, what a new DHCP lease changes, and
//! how a kernel report is merged with what the daemon manages.
use vstd::prelude::*;

use crate::dhcp::Lease;
use crate::error::{IfconfigError, IoError};
use crate::interface::{
    CountryCode, InterfaceInfo, InterfaceType, LaggProtocol, LinkOptions, Modification, RegDomain,
    WlanLinkOptions, WlanMode,
};
use crate::ip::{PrefixedIpAddr, PrefixedIpv4Addr};
use crate::state::ConnectionState;
use crate::text::append_str;

verus! {

/// Errors of a netlink query.
#[derive(Debug, Clone)]
pub enum NetlinkQueryError {
    IoError(IoError),
    DecodeError(String),
    NetlinkError(i32),
}

/// Errors that can occur when managing network interfaces.
#[derive(Debug, Clone)]
pub enum InterfaceError {
    /// Failed to query interface info
    NetlinkQueryError(NetlinkQueryError),
    /// Failed to get media info for interface
    GetMediaFailed { name: String },
    /// Failed to get interface groups
    GetGroupsFailed,
    /// Interface not found
    InterfaceNotFound { name: String },
    /// Failed to get parent interface
    GetParentFailed,
    /// Interface not found
    NotFound(String),
    /// sysctl operation failed
    SysctlFailed(IoError),
    /// Netlink listener error
    NetlinkListenerError(IoError),
    /// Interface configuration error
    IfconfigError(IfconfigError),
    Other(String),
}

/// The name of an interface type, as its debug form prints it.
pub open spec fn interface_type_name(t: InterfaceType) -> Seq<char> {
    match t {
        InterfaceType::Bridge => "Bridge"@,
        InterfaceType::Tun => "Tun"@,
        InterfaceType::Vlan => "Vlan"@,
        InterfaceType::Vxlan => "Vxlan"@,
        InterfaceType::GreTun => "GreTun"@,
        InterfaceType::Wireguard => "Wireguard"@,
        InterfaceType::Loopback => "Loopback"@,
        InterfaceType::Wlan => "Wlan"@,
        InterfaceType::Ethernet => "Ethernet"@,
        InterfaceType::Lagg => "Lagg"@,
        InterfaceType::Usbus => "Usbus"@,
        InterfaceType::Tap => "Tap"@,
        InterfaceType::Vmnet => "Vmnet"@,
        InterfaceType::Openvpn => "Openvpn"@,
        InterfaceType::Stf => "Stf"@,
        InterfaceType::Epair => "Epair"@,
        InterfaceType::Enc => "Enc"@,
        InterfaceType::Pflog => "Pflog"@,
        InterfaceType::Pfsync => "Pfsync"@,
        InterfaceType::Ipfw => "Ipfw"@,
        InterfaceType::Ipfwlog => "Ipfwlog"@,
        InterfaceType::Disc => "Disc"@,
        InterfaceType::Me => "Me"@,
        InterfaceType::Edsc => "Edsc"@,
        InterfaceType::Ipsec => "Ipsec"@,
        InterfaceType::Gif => "Gif"@,
        InterfaceType::Other => "Other"@,
    }
}

fn interface_type_name_exec(t: InterfaceType) -> (r: &'static str)
    ensures
        r@ == interface_type_name(t),
{
    match t {
        InterfaceType::Bridge => "Bridge",
        InterfaceType::Tun => "Tun",
        InterfaceType::Vlan => "Vlan",
        InterfaceType::Vxlan => "Vxlan",
        InterfaceType::GreTun => "GreTun",
        InterfaceType::Wireguard => "Wireguard",
        InterfaceType::Loopback => "Loopback",
        InterfaceType::Wlan => "Wlan",
        InterfaceType::Ethernet => "Ethernet",
        InterfaceType::Lagg => "Lagg",
        InterfaceType::Usbus => "Usbus",
        InterfaceType::Tap => "Tap",
        InterfaceType::Vmnet => "Vmnet",
        InterfaceType::Openvpn => "Openvpn",
        InterfaceType::Stf => "Stf",
        InterfaceType::Epair => "Epair",
        InterfaceType::Enc => "Enc",
        InterfaceType::Pflog => "Pflog",
        InterfaceType::Pfsync => "Pfsync",
        InterfaceType::Ipfw => "Ipfw",
        InterfaceType::Ipfwlog => "Ipfwlog",
        InterfaceType::Disc => "Disc",
        InterfaceType::Me => "Me",
        InterfaceType::Edsc => "Edsc",
        InterfaceType::Ipsec => "Ipsec",
        InterfaceType::Gif => "Gif",
        InterfaceType::Other => "Other",
    }
}

/// What a link request leads to.
#[derive(Debug, Clone)]
pub enum LinkPlan {
    /// Create the link with these parameters
    Create(LinkOptions),
    /// Create a WLAN on the first wireless device, once it is known
    NeedWirelessParent,
}

/// Whether a result is `Other` with the given message.
pub open spec fn is_other<T>(r: Result<T, InterfaceError>, m: Seq<char>) -> bool {
    r matches Err(InterfaceError::Other(s)) && s@ == m
}

/// The message for a kernel-provided interface type.
pub open spec fn kernel_type_text(t: InterfaceType) -> Seq<char> {
    interface_type_name(t) + " interfaces are provided by the kernel and can only be configured"@
}

/// Decides what a request to add link `name` of type `kind` creates: an
/// existing name is refused; WLAN, bridge, lagg and VLAN take their own
/// options (a WLAN without options goes on the first wireless device, a
/// bridge or lagg without options starts empty); other types are refused.
pub fn plan_link_creation(
    name: &str,
    exists: bool,
    kind: InterfaceType,
    options: Option<LinkOptions>,
) -> (r: Result<LinkPlan, InterfaceError>)
    ensures
        exists ==> is_other(r, "interface already exists: "@ + name@),
        !exists ==> match kind {
            InterfaceType::Wlan => match options {
                Some(LinkOptions::Wlan { parent, options: o }) => r matches Ok(
                    LinkPlan::Create(LinkOptions::Wlan { parent: p, options: q }),
                ) && p@ == parent@ && q == o,
                Some(_) => is_other(r, "WLAN creation requires WLAN link options"@),
                None => r matches Ok(LinkPlan::NeedWirelessParent),
            },
            InterfaceType::Bridge => match options {
                None => r matches Ok(LinkPlan::Create(LinkOptions::Bridge { members })) && members@.len()
                    == 0,
                Some(LinkOptions::Bridge { members }) => r matches Ok(
                    LinkPlan::Create(LinkOptions::Bridge { members: m }),
                ) && m == members,
                Some(_) => is_other(r, "bridge creation requires bridge link options"@),
            },
            InterfaceType::Lagg => match options {
                None => r matches Ok(LinkPlan::Create(LinkOptions::Lagg { protocol, members }))
                    && protocol == LaggProtocol::Failover && members@.len() == 0,
                Some(LinkOptions::Lagg { protocol, members }) => r matches Ok(
                    LinkPlan::Create(LinkOptions::Lagg { protocol: p, members: m }),
                ) && p == protocol && m == members,
                Some(_) => is_other(r, "lagg creation requires lagg link options"@),
            },
            InterfaceType::Vlan => match options {
                Some(LinkOptions::Vlan { parent, tag }) => r matches Ok(
                    LinkPlan::Create(LinkOptions::Vlan { parent: p, tag: t }),
                ) && p == parent && t == tag,
                None => is_other(r, "VLAN creation requires a parent and tag"@),
                Some(_) => is_other(r, "VLAN creation requires VLAN link options"@),
            },
            _ => is_other(r, kernel_type_text(kind)),
        },
{
    if exists {
        let mut m = String::new();
        append_str(&mut m, "interface already exists: ");
        append_str(&mut m, name);
        proof {
            reveal_strlit("");
        }
        assert(m@ =~= "interface already exists: "@ + name@);
        return Err(InterfaceError::Other(m));
    }
    match kind {
        InterfaceType::Wlan => match options {
            Some(LinkOptions::Wlan { parent, options }) => Ok(
                LinkPlan::Create(LinkOptions::Wlan { parent, options }),
            ),
            Some(_) => Err(InterfaceError::Other("WLAN creation requires WLAN link options".to_owned())),
            None => Ok(LinkPlan::NeedWirelessParent),
        },
        InterfaceType::Bridge => match options {
            None => Ok(LinkPlan::Create(LinkOptions::Bridge { members: Vec::new() })),
            Some(LinkOptions::Bridge { members }) => Ok(LinkPlan::Create(LinkOptions::Bridge { members })),
            Some(_) => Err(
                InterfaceError::Other("bridge creation requires bridge link options".to_owned()),
            ),
        },
        InterfaceType::Lagg => match options {
            None => Ok(
                LinkPlan::Create(LinkOptions::Lagg { protocol: LaggProtocol::Failover, members: Vec::new() }),
            ),
            Some(LinkOptions::Lagg { protocol, members }) => Ok(
                LinkPlan::Create(LinkOptions::Lagg { protocol, members }),
            ),
            Some(_) => Err(InterfaceError::Other("lagg creation requires lagg link options".to_owned())),
        },
        InterfaceType::Vlan => match options {
            Some(LinkOptions::Vlan { parent, tag }) => Ok(
                LinkPlan::Create(LinkOptions::Vlan { parent, tag }),
            ),
            None => Err(InterfaceError::Other("VLAN creation requires a parent and tag".to_owned())),
            Some(_) => Err(InterfaceError::Other("VLAN creation requires VLAN link options".to_owned())),
        },
        _ => {
            let mut m = String::new();
            append_str(&mut m, interface_type_name_exec(kind));
            append_str(&mut m, " interfaces are provided by the kernel and can only be configured");
            proof {
                reveal_strlit("");
            }
            assert(m@ =~= kernel_type_text(kind));
            Err(InterfaceError::Other(m))
        },
    }
}

/// A WLAN with default options on the first of the wireless devices.
pub fn wlan_on_first_device(devices: Vec<String>) -> (r: Result<LinkOptions, InterfaceError>)
    ensures
        devices@.len() == 0 ==> is_other(r, "no wireless device is available"@),
        devices@.len() > 0 ==> (r matches Ok(LinkOptions::Wlan { parent, options }) && parent
            == devices@[0] && options == (WlanLinkOptions {
                regdomain: RegDomain::Fcc,
                region: CountryCode::US,
                mode: WlanMode::Sta,
            })),
{
    let mut devices = devices;
    if devices.len() == 0 {
        return Err(InterfaceError::Other("no wireless device is available".to_owned()));
    }
    let parent = devices.remove(0);
    Ok(LinkOptions::Wlan { parent, options: WlanLinkOptions::default() })
}

/// A change to the address list of an interface.
#[derive(Debug, Clone, Copy, PartialEq, Eq, Structural)]
pub enum AddressOp {
    Delete(PrefixedIpAddr),
    Add(PrefixedIpAddr),
}

/// The deletions of every current address, in order.
pub open spec fn delete_all(current: Seq<PrefixedIpAddr>) -> Seq<AddressOp> {
    current.map_values(|a: PrefixedIpAddr| AddressOp::Delete(a))
}

/// The address changes a modification makes, in the order they are sent.
pub open spec fn address_ops_of(m: Modification<PrefixedIpAddr>, current: Seq<PrefixedIpAddr>) -> Seq<
    AddressOp,
> {
    match m {
        Modification::Remove(ip) => seq![AddressOp::Delete(ip)],
        Modification::Append(ip) => seq![AddressOp::Add(ip)],
        Modification::Clear => delete_all(current),
        Modification::Replace(ip) => delete_all(current).push(AddressOp::Add(ip)),
        Modification::NoChange => Seq::empty(),
    }
}

/// The address changes that a modification of an interface's addresses
/// makes: removing or adding one, clearing all, or replacing all with one.
pub fn address_ops(m: Modification<PrefixedIpAddr>, current: &Vec<PrefixedIpAddr>) -> (r: Vec<AddressOp>)
    ensures
        r@ == address_ops_of(m, current@),
{
    let mut ops: Vec<AddressOp> = Vec::new();
    match m {
        Modification::Remove(ip) => {
            ops.push(AddressOp::Delete(ip));
        },
        Modification::Append(ip) => {
            ops.push(AddressOp::Add(ip));
        },
        Modification::Clear | Modification::Replace(_) => {
            let mut i: usize = 0;
            while i < current.len()
                invariant
                    0 <= i <= current@.len(),
                    ops@ == delete_all(current@.take(i as int)),
                decreases current@.len() - i,
            {
                ops.push(AddressOp::Delete(current[i]));
                i = i + 1;
                assert(ops@ =~= delete_all(current@.take(i as int)));
            }
            assert(current@.take(current@.len() as int) =~= current@);
            if let Modification::Replace(ip) = m {
                ops.push(AddressOp::Add(ip));
            }
        },
        Modification::NoChange => {},
    }
    assert(ops@ =~= address_ops_of(m, current@));
    ops
}

/// The number of leading one bits of `x`.
pub open spec fn leading_ones(x: u32, n: nat) -> nat
    decreases n,
{
    if n == 0 {
        0
    } else if x & 0x8000_0000 == 0 {
        0
    } else {
        1 + leading_ones(x << 1u32, (n - 1) as nat)
    }
}

/// The prefix length of a netmask: its leading one bits.
pub fn mask_prefix_len(mask: u32) -> (r: u8)
    ensures
        r == leading_ones(mask, 32),
{
    let mut x = mask;
    let mut n: u8 = 0;
    while n < 32 && x & 0x8000_0000 != 0
        invariant
            0 <= n <= 32,
            n + leading_ones(x, (32 - n) as nat) == leading_ones(mask, 32),
        decreases 32 - n,
    {
        proof {
            assert(leading_ones(x, (32 - n) as nat) == 1 + leading_ones(x << 1u32, (32 - n - 1) as nat));
        }
        x = x << 1u32;
        n = n + 1;
    }
    n
}

/// The address of a lease, with the prefix length of its mask, and its
/// router as a host route.
pub open spec fn lease_addresses(lease: Option<Lease>) -> (Option<PrefixedIpv4Addr>, Option<PrefixedIpv4Addr>) {
    match lease {
        Some(l) => (
            Some(PrefixedIpv4Addr { addr: l.assigned_ip, prefix_len: leading_ones(l.subnet_mask.bits, 32) as u8 }),
            match l.router {
                Some(g) => Some(PrefixedIpv4Addr { addr: g, prefix_len: 32 }),
                None => None,
            },
        ),
        None => (None, None),
    }
}

fn lease_addresses_exec(lease: &Option<Lease>) -> (r: (Option<PrefixedIpv4Addr>, Option<PrefixedIpv4Addr>))
    ensures
        r == lease_addresses(*lease),
{
    match lease {
        Some(l) => {
            let p = mask_prefix_len(l.subnet_mask.bits);
            let ip = PrefixedIpv4Addr { addr: l.assigned_ip, prefix_len: p };
            let gw = match l.router {
                Some(g) => Some(PrefixedIpv4Addr { addr: g, prefix_len: 32 }),
                None => None,
            };
            (Some(ip), gw)
        },
        None => (None, None),
    }
}

/// What a change of DHCP lease does to an interface.
#[derive(Debug, Clone, Copy, PartialEq, Eq, Structural)]
pub struct DhcpUpdate {
    /// The gateway differs: the interface records `new_gateway`
    pub gateway_changed: bool,
    pub new_gateway: Option<PrefixedIpv4Addr>,
    /// The address to delete, when the address changed
    pub remove: Option<PrefixedIpv4Addr>,
    /// The address to add, when the address changed
    pub add: Option<PrefixedIpv4Addr>,
    /// Only the gateway changed: the change is announced as it is
    pub announce: bool,
}

/// The update for a lease change: a changed address is swapped; a changed
/// gateway alone is recorded and announced.
pub open spec fn dhcp_update_of(old_lease: Option<Lease>, new_lease: Option<Lease>) -> DhcpUpdate {
    let (old_ip, old_gw) = lease_addresses(old_lease);
    let (new_ip, new_gw) = lease_addresses(new_lease);
    let gateway_changed = old_gw != new_gw;
    if old_ip != new_ip {
        DhcpUpdate { gateway_changed, new_gateway: new_gw, remove: old_ip, add: new_ip, announce: false }
    } else {
        DhcpUpdate { gateway_changed, new_gateway: new_gw, remove: None, add: None, announce: gateway_changed }
    }
}

/// The address a lease puts on the interface: the leased address with its
/// subnet mask's length.
pub open spec fn leased_address(l: Lease) -> PrefixedIpv4Addr {
    PrefixedIpv4Addr { addr: l.assigned_ip, prefix_len: leading_ones(l.subnet_mask.bits, 32) as u8 }
}

/// A lease change that moves the interface to another address deletes
/// exactly the old lease's address and adds the new one's; one that keeps
/// the address deletes and adds nothing.
pub proof fn lemma_dhcp_update_swaps_address(old_lease: Option<Lease>, new_lease: Option<Lease>)
    ensures
        ({
            let u = dhcp_update_of(old_lease, new_lease);
            let old_ip = match old_lease {
                Some(l) => Some(leased_address(l)),
                None => None,
            };
            let new_ip = match new_lease {
                Some(l) => Some(leased_address(l)),
                None => None,
            };
            &&& old_ip != new_ip ==> u.remove == old_ip && u.add == new_ip
            &&& old_ip == new_ip ==> u.remove is None && u.add is None
        }),
{
}

/// Decides what a change of DHCP lease does to an interface.
pub fn plan_dhcp_update(old_lease: &Option<Lease>, new_lease: &Option<Lease>) -> (r: DhcpUpdate)
    ensures
        r == dhcp_update_of(*old_lease, *new_lease),
{
    let (old_ip, old_gw) = lease_addresses_exec(old_lease);
    let (new_ip, new_gw) = lease_addresses_exec(new_lease);
    let gateway_changed = old_gw != new_gw;
    if old_ip != new_ip {
        DhcpUpdate { gateway_changed, new_gateway: new_gw, remove: old_ip, add: new_ip, announce: false }
    } else {
        DhcpUpdate { gateway_changed, new_gateway: new_gw, remove: None, add: None, announce: gateway_changed }
    }
}

/// What the interface table keeps of a kernel report for an interface it
/// knows: an unmanaged interface stays unmanaged, a WLAN keeps the state
/// its manager set, and the gateways and DHCP/SLAAC flags stay as managed.
pub fn merge_changed_info(current: Option<&InterfaceInfo>, info: InterfaceInfo) -> (r: InterfaceInfo)
    ensures
        r.id == info.id,
        r.name@ == info.name@,
        r.interface_type == info.interface_type,
        r.mac_addr == info.mac_addr,
        r.ipv4_addrs@ == info.ipv4_addrs@,
        r.ipv6_addrs@ == info.ipv6_addrs@,
        r.parent == info.parent,
        match current {
            None => r.state == info.state && r.gateway_ipv4 == info.gateway_ipv4 && r.gateway_ipv6
                == info.gateway_ipv6 && r.dhcpv4_enabled == info.dhcpv4_enabled && r.slaac_enabled
                == info.slaac_enabled,
            Some(c) => {
                &&& r.state == (if c.state == ConnectionState::Unmanaged {
                    ConnectionState::Unmanaged
                } else if c.interface_type == InterfaceType::Wlan {
                    c.state
                } else {
                    info.state
                })
                &&& r.gateway_ipv4 == c.gateway_ipv4
                &&& r.gateway_ipv6 == c.gateway_ipv6
                &&& r.dhcpv4_enabled == c.dhcpv4_enabled
                &&& r.slaac_enabled == c.slaac_enabled
            },
        },
{
    let mut info = info;
    match current {
        None => {},
        Some(c) => {
            let state = if c.state == ConnectionState::Unmanaged {
                ConnectionState::Unmanaged
            } else if c.interface_type == InterfaceType::Wlan {
                c.state
            } else {
                info.state
            };
            info.state = state;
            info.gateway_ipv4 = c.gateway_ipv4;
            info.gateway_ipv6 = c.gateway_ipv6;
            info.dhcpv4_enabled = c.dhcpv4_enabled;
            info.slaac_enabled = c.slaac_enabled;
        },
    }
    info
}


/// A netlink notice of the link group: a link appeared or changed (with
/// whether its header carries the `Dying` flag), a link went away, or an
/// address was added to or removed from a link.
#[derive(Debug, Clone, Copy, PartialEq, Eq, Structural)]
pub enum LinkNotice {
    NewLink { index: u32, dying_flag: bool },
    DelLink { index: u32 },
    NewAddress { index: u32 },
    DelAddress { index: u32 },
}

/// A change of the interface list, as the interface manager reports it.
#[derive(Debug, Clone)]
pub enum InterfaceManagerEvent {
    InterfaceAdded(InterfaceInfo),
    InterfaceRemoved(InterfaceInfo),
    InterfaceChanged(InterfaceInfo),
}

/// What a netlink notice means for the interface list, given the cached
/// information of the link's index (`cached`) and what a fresh query of
/// the link found (`queried`).
///
/// A new link counts as dying when the query found nothing or the notice
/// carries the `Dying` flag: a dying cached link is removed, a live cached
/// one changed, a live unknown one added, and a dying unknown one ignored.
/// A deleted link is removed when it is cached. An address change marks
/// the queried link as changed when the query found it.
pub fn link_event(
    notice: LinkNotice,
    cached: Option<InterfaceInfo>,
    queried: Option<InterfaceInfo>,
) -> (r: Option<InterfaceManagerEvent>)
    ensures
        r == match notice {
            LinkNotice::NewLink { dying_flag, .. } => if queried is None || dying_flag {
                match cached {
                    Some(c) => Some(InterfaceManagerEvent::InterfaceRemoved(c)),
                    None => None,
                }
            } else {
                match (cached, queried) {
                    (Some(_), Some(q)) => Some(InterfaceManagerEvent::InterfaceChanged(q)),
                    (None, Some(q)) => Some(InterfaceManagerEvent::InterfaceAdded(q)),
                    _ => None,
                }
            },
            LinkNotice::DelLink { .. } => match cached {
                Some(c) => Some(InterfaceManagerEvent::InterfaceRemoved(c)),
                None => None,
            },
            LinkNotice::NewAddress { .. } | LinkNotice::DelAddress { .. } => match queried {
                Some(q) => Some(InterfaceManagerEvent::InterfaceChanged(q)),
                None => None,
            },
        },
{
    match notice {
        LinkNotice::NewLink { dying_flag, .. } => {
            let dying = queried.is_none() || dying_flag;
            match (dying, cached, queried) {
                (true, Some(c), _) => Some(InterfaceManagerEvent::InterfaceRemoved(c)),
                (false, Some(_), Some(q)) => Some(InterfaceManagerEvent::InterfaceChanged(q)),
                (false, None, Some(q)) => Some(InterfaceManagerEvent::InterfaceAdded(q)),
                _ => None,
            }
        },
        LinkNotice::DelLink { .. } => match cached {
            Some(c) => Some(InterfaceManagerEvent::InterfaceRemoved(c)),
            None => None,
        },
        LinkNotice::NewAddress { .. } | LinkNotice::DelAddress { .. } => match queried {
            Some(q) => Some(InterfaceManagerEvent::InterfaceChanged(q)),
            None => None,
        },
    }
}

} // verus!
