//! DHCPv4 leases and their timers.
use vstd::prelude::*;

use crate::ip::Ipv4Addr;

verus! {

/// A DHCPv4 lease.
#[derive(Debug, Clone)]
pub struct Lease {
    pub assigned_ip: Ipv4Addr,
    pub server_id: Ipv4Addr,
    pub subnet_mask: Ipv4Addr,
    pub router: Option<Ipv4Addr>,
    pub dns_servers: Vec<Ipv4Addr>,
    /// Seconds
    pub lease_time: u32,
    /// T1, in seconds
    pub renewal_time: u32,
    /// T2, in seconds
    pub rebinding_time: u32,
}

/// Collects the fields of a lease as they are read from a server's reply.
#[derive(Debug, Clone)]
pub struct LeaseBuilder {
    assigned_ip: Option<Ipv4Addr>,
    server_id: Option<Ipv4Addr>,
    subnet_mask: Option<Ipv4Addr>,
    router: Option<Ipv4Addr>,
    dns_servers: Vec<Ipv4Addr>,
    lease_time: u32,
    renewal_time: Option<u32>,
    rebinding_time: Option<u32>,
}

/// The plain contents of a `LeaseBuilder`.
pub struct LeaseBuilderView {
    pub assigned_ip: Option<Ipv4Addr>,
    pub server_id: Option<Ipv4Addr>,
    pub subnet_mask: Option<Ipv4Addr>,
    pub router: Option<Ipv4Addr>,
    pub dns_servers: Seq<Ipv4Addr>,
    pub lease_time: u32,
    pub renewal_time: Option<u32>,
    pub rebinding_time: Option<u32>,
}

impl View for LeaseBuilder {
    type V = LeaseBuilderView;

    closed spec fn view(&self) -> LeaseBuilderView {
        LeaseBuilderView {
            assigned_ip: self.assigned_ip,
            server_id: self.server_id,
            subnet_mask: self.subnet_mask,
            router: self.router,
            dns_servers: self.dns_servers@,
            lease_time: self.lease_time,
            renewal_time: self.renewal_time,
            rebinding_time: self.rebinding_time,
        }
    }
}

/// T1: the explicit renewal time, else half the lease.
pub open spec fn renewal_of(b: LeaseBuilderView) -> u32 {
    match b.renewal_time {
        Some(t) => t,
        None => (b.lease_time / 2) as u32,
    }
}

/// T2: the explicit rebinding time, else seven eighths of the lease.
pub open spec fn rebinding_of(b: LeaseBuilderView) -> u32 {
    match b.rebinding_time {
        Some(t) => t,
        None => (b.lease_time * 7 / 8) as u32,
    }
}

/// The message of `build` when a required field is missing, checked in
/// the order assigned IP, server ID, subnet mask.
pub open spec fn missing_field(b: LeaseBuilderView) -> Option<Seq<char>> {
    if b.assigned_ip is None {
        Some("Assigned IP is required"@)
    } else if b.server_id is None {
        Some("Server ID is required"@)
    } else if b.subnet_mask is None {
        Some("Subnet mask is required"@)
    } else {
        None
    }
}

impl LeaseBuilder {
    /// A builder with no field set and a lease time of zero.
    pub fn new() -> (r: LeaseBuilder)
        ensures
            r@.assigned_ip is None,
            r@.server_id is None,
            r@.subnet_mask is None,
            r@.router is None,
            r@.dns_servers.len() == 0,
            r@.lease_time == 0,
            r@.renewal_time is None,
            r@.rebinding_time is None,
    {
        LeaseBuilder {
            assigned_ip: None,
            server_id: None,
            subnet_mask: None,
            router: None,
            dns_servers: Vec::new(),
            lease_time: 0,
            renewal_time: None,
            rebinding_time: None,
        }
    }

    pub fn set_assigned_ip(self, ip: Ipv4Addr) -> (r: LeaseBuilder)
        ensures
            r@ == (LeaseBuilderView { assigned_ip: Some(ip), ..self@ }),
    {
        LeaseBuilder { assigned_ip: Some(ip), ..self }
    }

    pub fn set_server_id(self, server_id: Ipv4Addr) -> (r: LeaseBuilder)
        ensures
            r@ == (LeaseBuilderView { server_id: Some(server_id), ..self@ }),
    {
        LeaseBuilder { server_id: Some(server_id), ..self }
    }

    pub fn set_subnet_mask(self, mask: Ipv4Addr) -> (r: LeaseBuilder)
        ensures
            r@ == (LeaseBuilderView { subnet_mask: Some(mask), ..self@ }),
    {
        LeaseBuilder { subnet_mask: Some(mask), ..self }
    }

    pub fn set_router(self, router: Ipv4Addr) -> (r: LeaseBuilder)
        ensures
            r@ == (LeaseBuilderView { router: Some(router), ..self@ }),
    {
        LeaseBuilder { router: Some(router), ..self }
    }

    pub fn add_dns_server(self, dns: Ipv4Addr) -> (r: LeaseBuilder)
        ensures
            r@ == (LeaseBuilderView { dns_servers: self@.dns_servers.push(dns), ..self@ }),
    {
        let mut b = self;
        b.dns_servers.push(dns);
        b
    }

    pub fn set_lease_time(self, lease_time: u32) -> (r: LeaseBuilder)
        ensures
            r@ == (LeaseBuilderView { lease_time, ..self@ }),
    {
        LeaseBuilder { lease_time, ..self }
    }

    pub fn set_renewal_time(self, renewal_time: u32) -> (r: LeaseBuilder)
        ensures
            r@ == (LeaseBuilderView { renewal_time: Some(renewal_time), ..self@ }),
    {
        LeaseBuilder { renewal_time: Some(renewal_time), ..self }
    }

    pub fn set_rebinding_time(self, rebinding_time: u32) -> (r: LeaseBuilder)
        ensures
            r@ == (LeaseBuilderView { rebinding_time: Some(rebinding_time), ..self@ }),
    {
        LeaseBuilder { rebinding_time: Some(rebinding_time), ..self }
    }

    /// The lease, or the message of the first missing required field.
    /// T1 defaults to half the lease time and T2 to seven eighths of it.
    pub fn build(self) -> (r: Result<Lease, &'static str>)
        ensures
            match missing_field(self@) {
                Some(m) => r matches Err(e) && e@ == m,
                None => r matches Ok(lease) && {
                    &&& Some(lease.assigned_ip) == self@.assigned_ip
                    &&& Some(lease.server_id) == self@.server_id
                    &&& Some(lease.subnet_mask) == self@.subnet_mask
                    &&& lease.router == self@.router
                    &&& lease.dns_servers@ == self@.dns_servers
                    &&& lease.lease_time == self@.lease_time
                    &&& lease.renewal_time == renewal_of(self@)
                    &&& lease.rebinding_time == rebinding_of(self@)
                },
            },
    {
        let renewal_time = match self.renewal_time {
            Some(t) => t,
            None => self.lease_time / 2,
        };
        let rebinding_time = match self.rebinding_time {
            Some(t) => t,
            None => ((self.lease_time as u64) * 7 / 8) as u32,
        };
        let assigned_ip = match self.assigned_ip {
            Some(a) => a,
            None => {
                proof {
                    reveal_strlit("Assigned IP is required");
                }
                return Err("Assigned IP is required");
            },
        };
        let server_id = match self.server_id {
            Some(a) => a,
            None => {
                proof {
                    reveal_strlit("Server ID is required");
                }
                return Err("Server ID is required");
            },
        };
        let subnet_mask = match self.subnet_mask {
            Some(a) => a,
            None => {
                proof {
                    reveal_strlit("Subnet mask is required");
                }
                return Err("Subnet mask is required");
            },
        };
        Ok(
            Lease {
                assigned_ip,
                server_id,
                subnet_mask,
                router: self.router,
                dns_servers: self.dns_servers,
                lease_time: self.lease_time,
                renewal_time,
                rebinding_time,
            },
        )
    }
}

impl Default for LeaseBuilder {
    fn default() -> (r: Self)
        ensures
            r@.assigned_ip is None,
            r@.server_id is None,
            r@.subnet_mask is None,
            r@.router is None,
            r@.dns_servers.len() == 0,
            r@.lease_time == 0,
            r@.renewal_time is None,
            r@.rebinding_time is None,
    {
        LeaseBuilder::new()
    }
}

/// The default timers come before the end of the lease, T1 no later than
/// T2.
pub proof fn lemma_default_timers(lease_time: u32)
    ensures
        (lease_time / 2) as u32 <= (lease_time * 7 / 8) as u32,
        (lease_time * 7 / 8) as u32 <= lease_time,
{
}

/// The timer events of a lease.
#[derive(Debug, Clone, Copy, PartialEq, Eq, Structural)]
pub enum LeaseEvent {
    Renewal,
    Rebinding,
    LeaseExpired,
}

/// Why a retried attempt gave up.
#[derive(Debug, Clone)]
pub enum AttemptError<E> {
    Timeout,
    RetriesExhausted,
    CrticalError(E),
}

} // verus!
