//! What the connection editor reads from its text fields: the addresses it
//! hands to the daemon, the editor opened on an interface, and the routes
//! its routing popup accepts.
use vstd::prelude::*;

use crate::editor::{ConnectionEditor, EditorMode, IpMode, RoutingFamily, RoutingPopup};
use crate::interface::{InterfaceInfo, Modification};
use crate::ip::{Ipv4Addr, Ipv6Addr, PrefixedIpv4Addr, PrefixedIpv6Addr, v4_addr_text, v4_text};
use crate::ip_text::{
    ipv4_exec, ipv4_of, ipv6_exec, ipv6_of, prefixed_v4_of, prefixed_v6_of, v6_addr_text, v6_text,
};
use crate::security::Security;
use crate::text::{
    append_chars, append_str, chars_of, copy_string, first_word_exec, nth_word, slice_vec, trim,
    trim_str,
};

verus! {

/// A change to an interface's link settings.
#[derive(Debug, Clone)]
pub struct LinkChange {
    pub name: String,
    pub ipv4: Modification<PrefixedIpv4Addr>,
    pub ipv6: Modification<PrefixedIpv6Addr>,
    pub oper_state: Modification<bool>,
    pub slaac: Modification<bool>,
    pub dhcpv4: Modification<bool>,
}

/// The IPv4 change an address mode and an address field ask for: none kept
/// for automatic and ignored addressing, the address for manual addressing.
pub open spec fn ipv4_value_of(mode: IpMode, text: Seq<char>) -> Result<
    Modification<PrefixedIpv4Addr>,
    Seq<char>,
> {
    match mode {
        IpMode::Manual => {
            let v = trim(text);
            match prefixed_v4_of(v) {
                Err(_) => Err("invalid IPv4 address: "@ + v),
                Ok((a, l)) => if l > 32 {
                    Err("IPv4 prefix must be between 0 and 32"@)
                } else {
                    Ok(
                        Modification::Replace(
                            PrefixedIpv4Addr { addr: Ipv4Addr { bits: a }, prefix_len: l },
                        ),
                    )
                },
            }
        },
        _ => Ok(Modification::Clear),
    }
}

/// The IPv6 change an address mode and an address field ask for: no change
/// for automatic addressing, none kept when ignored, the address for manual
/// addressing.
pub open spec fn ipv6_value_of(mode: IpMode, text: Seq<char>) -> Result<
    Modification<PrefixedIpv6Addr>,
    Seq<char>,
> {
    match mode {
        IpMode::Automatic => Ok(Modification::NoChange),
        IpMode::Ignore => Ok(Modification::Clear),
        IpMode::Manual => {
            let v = trim(text);
            match prefixed_v6_of(v) {
                Err(_) => Err("invalid IPv6 address: "@ + v),
                Ok((a, l)) => if l > 128 {
                    Err("IPv6 prefix must be between 0 and 128"@)
                } else {
                    Ok(
                        Modification::Replace(
                            PrefixedIpv6Addr { addr: Ipv6Addr { bits: a as u128 }, prefix_len: l },
                        ),
                    )
                },
            }
        },
    }
}

/// The text `prefix` followed by `v`.
fn message_with(prefix: &str, v: &Vec<char>) -> (r: String)
    ensures
        r@ == prefix@ + v@,
{
    let mut s = String::new();
    append_str(&mut s, prefix);
    append_chars(&mut s, v);
    assert(s@ =~= prefix@ + v@);
    s
}

impl ConnectionEditor {
    /// The IPv4 change the form asks for.
    pub fn ipv4_value(&self) -> (r: Result<Modification<PrefixedIpv4Addr>, String>)
        ensures
            match r {
                Ok(m) => ipv4_value_of(self.ipv4_mode, self.ipv4_address@) == Ok::<
                    Modification<PrefixedIpv4Addr>,
                    Seq<char>,
                >(m),
                Err(e) => ipv4_value_of(self.ipv4_mode, self.ipv4_address@) == Err::<
                    Modification<PrefixedIpv4Addr>,
                    Seq<char>,
                >(e@),
            },
    {
        match self.ipv4_mode {
            IpMode::Manual => {
                let v = trim_str(self.ipv4_address.as_str());
                match PrefixedIpv4Addr::parse_chars(&v) {
                    Err(_) => Err(message_with("invalid IPv4 address: ", &v)),
                    Ok(a) => {
                        if a.prefix_len > 32 {
                            Err("IPv4 prefix must be between 0 and 32".to_owned())
                        } else {
                            Ok(Modification::Replace(a))
                        }
                    },
                }
            },
            _ => Ok(Modification::Clear),
        }
    }

    /// The IPv6 change the form asks for.
    pub fn ipv6_value(&self) -> (r: Result<Modification<PrefixedIpv6Addr>, String>)
        ensures
            match r {
                Ok(m) => ipv6_value_of(self.ipv6_mode, self.ipv6_address@) == Ok::<
                    Modification<PrefixedIpv6Addr>,
                    Seq<char>,
                >(m),
                Err(e) => ipv6_value_of(self.ipv6_mode, self.ipv6_address@) == Err::<
                    Modification<PrefixedIpv6Addr>,
                    Seq<char>,
                >(e@),
            },
    {
        match self.ipv6_mode {
            IpMode::Automatic => Ok(Modification::NoChange),
            IpMode::Ignore => Ok(Modification::Clear),
            IpMode::Manual => {
                let v = trim_str(self.ipv6_address.as_str());
                match PrefixedIpv6Addr::parse_chars(&v) {
                    Err(_) => Err(message_with("invalid IPv6 address: ", &v)),
                    Ok(a) => {
                        if a.prefix_len > 128 {
                            Err("IPv6 prefix must be between 0 and 128".to_owned())
                        } else {
                            Ok(Modification::Replace(a))
                        }
                    },
                }
            },
        }
    }

    /// The link change the form asks for on interface `name`: its addresses,
    /// SLAAC as ticked, and DHCPv4 exactly when IPv4 is automatic.
    pub fn interface_action(&self, name: String) -> (r: Result<LinkChange, String>)
        ensures
            match r {
                Ok(c) => ipv4_value_of(self.ipv4_mode, self.ipv4_address@) == Ok::<
                    Modification<PrefixedIpv4Addr>,
                    Seq<char>,
                >(c.ipv4) && ipv6_value_of(self.ipv6_mode, self.ipv6_address@) == Ok::<
                    Modification<PrefixedIpv6Addr>,
                    Seq<char>,
                >(c.ipv6) && c.name@ == name@ && c.oper_state is NoChange && c.slaac
                    == Modification::Replace(self.slaac) && c.dhcpv4 == Modification::Replace(
                    self.ipv4_mode == IpMode::Automatic,
                ),
                Err(e) => match ipv4_value_of(self.ipv4_mode, self.ipv4_address@) {
                    Err(m) => e@ == m,
                    Ok(_) => ipv6_value_of(self.ipv6_mode, self.ipv6_address@) == Err::<
                        Modification<PrefixedIpv6Addr>,
                        Seq<char>,
                    >(e@),
                },
            },
    {
        let ipv4 = match self.ipv4_value() {
            Ok(m) => m,
            Err(e) => {
                return Err(e);
            },
        };
        let ipv6 = match self.ipv6_value() {
            Ok(m) => m,
            Err(e) => {
                return Err(e);
            },
        };
        let automatic = match self.ipv4_mode {
            IpMode::Automatic => true,
            _ => false,
        };
        Ok(
            LinkChange {
                name,
                ipv4,
                ipv6,
                oper_state: Modification::NoChange,
                slaac: Modification::Replace(self.slaac),
                dhcpv4: Modification::Replace(automatic),
            },
        )
    }
}

/// The text of the first address of a list, empty when there is none.
pub open spec fn first_v4_text(addrs: Seq<PrefixedIpv4Addr>) -> Seq<char> {
    if addrs.len() == 0 {
        Seq::empty()
    } else {
        v4_text(addrs[0].addr.bits, addrs[0].prefix_len)
    }
}

/// The text of the first address of a list, empty when there is none.
pub open spec fn first_v6_text(addrs: Seq<PrefixedIpv6Addr>) -> Seq<char> {
    if addrs.len() == 0 {
        Seq::empty()
    } else {
        v6_text(addrs[0].addr.bits, addrs[0].prefix_len)
    }
}

impl ConnectionEditor {
    /// An editor for the Ethernet profile of an interface, filled from the
    /// interface's first addresses and gateways.
    pub fn from_interface(iface: &InterfaceInfo) -> (r: ConnectionEditor)
        ensures
            r.mode == EditorMode::Ethernet,
            r.profile_name@ == iface.name@,
            r.device@ == iface.name@,
            r.ssid@.len() == 0,
            r.bssid@.len() == 0,
            r.security == Security::Open,
            r.identity@.len() == 0,
            r.password@.len() == 0,
            !r.hidden,
            r.ipv4_mode == (if iface.dhcpv4_enabled {
                IpMode::Automatic
            } else {
                IpMode::Manual
            }),
            r.ipv4_address@ == first_v4_text(iface.ipv4_addrs@),
            r.ipv4_gateway@ == (match iface.gateway_ipv4 {
                Some(g) => v4_addr_text(g.addr.bits),
                None => Seq::empty(),
            }),
            r.ipv4_dns@.len() == 0,
            r.ipv4_search@.len() == 0,
            r.ipv4_routes@.len() == 0,
            !r.ipv4_never_default,
            !r.ipv4_ignore_routes,
            !r.ipv4_ignore_dns,
            !r.ipv4_required,
            r.ipv6_mode == (if iface.slaac_enabled {
                IpMode::Automatic
            } else if iface.ipv6_addrs@.len() == 0 {
                IpMode::Ignore
            } else {
                IpMode::Manual
            }),
            r.slaac == iface.slaac_enabled,
            r.ipv6_address@ == first_v6_text(iface.ipv6_addrs@),
            r.ipv6_gateway@ == (match iface.gateway_ipv6 {
                Some(g) => v6_addr_text(g.addr.bits),
                None => Seq::empty(),
            }),
            r.ipv6_dns@.len() == 0,
            r.ipv6_search@.len() == 0,
            r.ipv6_routes@.len() == 0,
            !r.ipv6_never_default,
            !r.ipv6_ignore_routes,
            !r.ipv6_ignore_dns,
            !r.ipv6_required,
            r.autoconnect,
            r.available_users,
            r.existing_network is None,
            r.focus == 0,
            !r.footer,
            r.footer_selected == 0,
            r.choice is None,
            r.routing is None,
            r.scroll == 0,
    {
        let ipv4_address = if iface.ipv4_addrs.len() > 0 {
            iface.ipv4_addrs[0].to_string()
        } else {
            String::new()
        };
        let ipv6_address = if iface.ipv6_addrs.len() > 0 {
            iface.ipv6_addrs[0].to_string()
        } else {
            String::new()
        };
        let ipv4_gateway = match &iface.gateway_ipv4 {
            Some(g) => g.addr.to_string(),
            None => String::new(),
        };
        let ipv6_gateway = match &iface.gateway_ipv6 {
            Some(g) => g.addr.to_string(),
            None => String::new(),
        };
        let ipv4_mode = if iface.dhcpv4_enabled {
            IpMode::Automatic
        } else {
            IpMode::Manual
        };
        let ipv6_mode = if iface.slaac_enabled {
            IpMode::Automatic
        } else if iface.ipv6_addrs.len() == 0 {
            IpMode::Ignore
        } else {
            IpMode::Manual
        };
        ConnectionEditor {
            mode: EditorMode::Ethernet,
            profile_name: copy_string(&iface.name),
            device: copy_string(&iface.name),
            ssid: String::new(),
            bssid: String::new(),
            security: Security::Open,
            identity: String::new(),
            password: String::new(),
            hidden: false,
            ipv4_mode,
            ipv4_address,
            ipv4_gateway,
            ipv4_dns: String::new(),
            ipv4_search: String::new(),
            ipv4_routes: Vec::new(),
            ipv4_never_default: false,
            ipv4_ignore_routes: false,
            ipv4_ignore_dns: false,
            ipv4_required: false,
            ipv6_mode,
            slaac: iface.slaac_enabled,
            ipv6_address,
            ipv6_gateway,
            ipv6_dns: String::new(),
            ipv6_search: String::new(),
            ipv6_routes: Vec::new(),
            ipv6_never_default: false,
            ipv6_ignore_routes: false,
            ipv6_ignore_dns: false,
            ipv6_required: false,
            autoconnect: true,
            available_users: true,
            existing_network: None,
            focus: 0,
            footer: false,
            footer_selected: 0,
            choice: None,
            routing: None,
            scroll: 0,
        }
    }
}

/// Whether a route entry is accepted: a destination with its prefix length
/// in range, at most one gateway of the popup's family, and nothing more;
/// else the message that refuses it.
pub open spec fn route_check(family: RoutingFamily, input: Seq<char>) -> Result<(), Seq<char>> {
    let destination = nth_word(input, 0);
    let gateway = nth_word(input, 1);
    if destination is None {
        Err("Route must not be empty"@)
    } else if nth_word(input, 2) is Some {
        Err("Route accepts one destination and one gateway"@)
    } else {
        let d = destination.unwrap();
        match family {
            RoutingFamily::Ipv4 => match prefixed_v4_of(d) {
                Err(_) => Err("Invalid IPv4 destination/prefix"@),
                Ok((_, l)) => if l > 32 {
                    Err("IPv4 prefix must be between 0 and 32"@)
                } else if gateway is Some && ipv4_of(gateway.unwrap()) is None {
                    Err("Invalid IPv4 gateway"@)
                } else {
                    Ok(())
                },
            },
            RoutingFamily::Ipv6 => match prefixed_v6_of(d) {
                Err(_) => Err("Invalid IPv6 destination/prefix"@),
                Ok((_, l)) => if l > 128 {
                    Err("IPv6 prefix must be between 0 and 128"@)
                } else if gateway is Some && ipv6_of(gateway.unwrap()) is None {
                    Err("Invalid IPv6 gateway"@)
                } else {
                    Ok(())
                },
            },
        }
    }
}

/// Checks a route entry of the given family.
pub fn check_route(family: RoutingFamily, input: &str) -> (r: Result<(), String>)
    ensures
        match r {
            Ok(_) => route_check(family, input@) == Ok::<(), Seq<char>>(()),
            Err(e) => route_check(family, input@) == Err::<(), Seq<char>>(e@),
        },
{
    let s = chars_of(input);
    let (a0, b0) = match first_word_exec(&s, 0) {
        Some(w) => w,
        None => {
            assert(s@.skip(0) =~= s@);
            return Err("Route must not be empty".to_owned());
        },
    };
    assert(s@.skip(0) =~= s@);
    let gateway = first_word_exec(&s, b0);
    let third = match gateway {
        Some((_, b1)) => first_word_exec(&s, b1),
        None => None,
    };
    proof {
        reveal_with_fuel(nth_word, 3);
        assert(nth_word(s@, 1) == nth_word(s@.skip(b0 as int), 0));
        if let Some((a1, b1)) = gateway {
            assert(nth_word(s@, 2) == nth_word(s@.skip(b1 as int), 0));
        } else {
            let x = s@.skip(b0 as int);
            assert(crate::text::trim_start(x).len() == 0);
            assert(crate::text::after_word(x) =~= Seq::<char>::empty());
            assert(crate::text::trim_start(Seq::<char>::empty()) =~= Seq::<char>::empty());
            assert(nth_word(x, 1) is None);
        }
    }
    if third.is_some() {
        return Err("Route accepts one destination and one gateway".to_owned());
    }
    let destination = slice_vec(&s, a0, b0);
    let gateway_text = match gateway {
        Some((a1, b1)) => Some(slice_vec(&s, a1, b1)),
        None => None,
    };
    match family {
        RoutingFamily::Ipv4 => match PrefixedIpv4Addr::parse_chars(&destination) {
            Err(_) => Err("Invalid IPv4 destination/prefix".to_owned()),
            Ok(a) => {
                if a.prefix_len > 32 {
                    return Err("IPv4 prefix must be between 0 and 32".to_owned());
                }
                match gateway_text {
                    Some(g) => match ipv4_exec(&g) {
                        None => Err("Invalid IPv4 gateway".to_owned()),
                        Some(_) => Ok(()),
                    },
                    None => Ok(()),
                }
            },
        },
        RoutingFamily::Ipv6 => match PrefixedIpv6Addr::parse_chars(&destination) {
            Err(_) => Err("Invalid IPv6 destination/prefix".to_owned()),
            Ok(a) => {
                if a.prefix_len > 128 {
                    return Err("IPv6 prefix must be between 0 and 128".to_owned());
                }
                match gateway_text {
                    Some(g) => match ipv6_exec(&g) {
                        None => Err("Invalid IPv6 gateway".to_owned()),
                        Some(_) => Ok(()),
                    },
                    None => Ok(()),
                }
            },
        },
    }
}

/// The entered route added: the trimmed entry at the end of the list and
/// selected, editing ended with an empty input and no error.
pub open spec fn route_added(a: RoutingPopup, b: RoutingPopup) -> bool {
    &&& b.routes@.len() == a.routes@.len() + 1
    &&& forall|k: int| 0 <= k < a.routes@.len() ==> #[trigger] b.routes@[k] == a.routes@[k]
    &&& b.routes@.last()@ == trim(a.input@)
    &&& b.selected == a.routes@.len()
    &&& !b.editing
    &&& b.input@.len() == 0
    &&& b.error is None
    &&& b.family == a.family
    &&& b.focus == a.focus
}

impl RoutingPopup {
    /// Adds the entered route when `check_route` accepts it: the trimmed
    /// entry goes to the end of the list and is selected, and editing ends
    /// with an empty input and no error. A refused entry changes nothing.
    pub fn add_route(&mut self) -> (r: Result<(), String>)
        ensures
            match r {
                Ok(_) => route_check(old(self).family, old(self).input@) == Ok::<(), Seq<char>>(())
                    && route_added(*old(self), *final(self)),
                Err(e) => route_check(old(self).family, old(self).input@) == Err::<(), Seq<char>>(e@)
                    && *final(self) == *old(self),
            },
    {
        match check_route(self.family, self.input.as_str()) {
            Err(e) => Err(e),
            Ok(_) => {
                let t = trim_str(self.input.as_str());
                let mut entry = String::new();
                append_chars(&mut entry, &t);
                assert(entry@ =~= t@);
                self.routes.push(entry);
                self.selected = self.routes.len() - 1;
                self.editing = false;
                self.input = String::new();
                self.error = None;
                Ok(())
            },
        }
    }
}

} // verus!
