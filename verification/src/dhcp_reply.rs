//! What the DHCPv4 client makes of the server's replies: which reply ends a
//! wait, and the lease that an acknowledgement carries.
use vstd::prelude::*;

use crate::dhcp::{Lease, LeaseBuilder, LeaseBuilderView, missing_field, rebinding_of, renewal_of};
use crate::ip::Ipv4Addr;

verus! {

/// Errors of a DHCP transaction.
#[derive(Debug, Clone)]
pub enum DhcpClientError {
    /// A packet could not be encoded
    DhcpPacketEncodeError(String),
    /// An Ethernet frame could not be built
    EthernetPacketBuildError(String),
    /// The socket failed
    SocketError(crate::error::IoError),
    /// No answer came in time
    TransactionFailed,
    /// The server refused the request (NAK)
    ServerRejected,
    /// The answer lacks a required field
    InvalidResponse,
}

/// The DHCP message types.
#[derive(Debug, Clone, Copy, PartialEq, Eq, Structural)]
pub enum MessageType {
    Discover,
    Offer,
    Request,
    Decline,
    Ack,
    Nak,
    Release,
    Inform,
}

/// The step of a transaction that waits for a reply.
#[derive(Debug, Clone, Copy, PartialEq, Eq, Structural)]
pub enum Awaiting {
    /// After DISCOVER: an OFFER
    Offer,
    /// After REQUEST: an ACK, or a NAK
    Ack,
}

/// What to do with a received message.
#[derive(Debug, Clone, Copy, PartialEq, Eq, Structural)]
pub enum ReplyDecision {
    /// The awaited reply: the wait ends with it
    Accept,
    /// The server refused: the wait ends with `ServerRejected`
    Reject,
    /// Not for this wait: keep waiting
    Ignore,
}

/// What the client does with a message of transaction `xid` and type
/// `msg_type` while it waits: only a message of its own transaction counts.
pub open spec fn reply_decision(
    awaiting: Awaiting,
    xid: u32,
    reply_xid: u32,
    msg_type: Option<MessageType>,
) -> ReplyDecision {
    if reply_xid != xid {
        ReplyDecision::Ignore
    } else {
        match awaiting {
            Awaiting::Offer => if msg_type == Some(MessageType::Offer) {
                ReplyDecision::Accept
            } else {
                ReplyDecision::Ignore
            },
            Awaiting::Ack => if msg_type == Some(MessageType::Ack) {
                ReplyDecision::Accept
            } else if msg_type == Some(MessageType::Nak) {
                ReplyDecision::Reject
            } else {
                ReplyDecision::Ignore
            },
        }
    }
}

/// Decides what to do with a received message.
pub fn classify_reply(
    awaiting: Awaiting,
    xid: u32,
    reply_xid: u32,
    msg_type: Option<MessageType>,
) -> (r: ReplyDecision)
    ensures
        r == reply_decision(awaiting, xid, reply_xid, msg_type),
{
    if reply_xid != xid {
        return ReplyDecision::Ignore;
    }
    match awaiting {
        Awaiting::Offer => match msg_type {
            Some(MessageType::Offer) => ReplyDecision::Accept,
            _ => ReplyDecision::Ignore,
        },
        Awaiting::Ack => match msg_type {
            Some(MessageType::Ack) => ReplyDecision::Accept,
            Some(MessageType::Nak) => ReplyDecision::Reject,
            _ => ReplyDecision::Ignore,
        },
    }
}

/// An option of a server's acknowledgement, as far as the lease needs it.
#[derive(Debug, Clone)]
pub enum AckOption {
    SubnetMask(Ipv4Addr),
    Router(Vec<Ipv4Addr>),
    DomainNameServer(Vec<Ipv4Addr>),
    AddressLeaseTime(u32),
    Renewal(u32),
    Rebinding(u32),
    /// Any other option, which the lease does not use
    Other,
}

/// Every router option lists at least one router.
pub open spec fn routers_listed(options: Seq<AckOption>) -> bool {
    forall|i: int| 0 <= i < options.len() ==> (#[trigger] options[i] matches AckOption::Router(r) ==> r@.len() > 0)
}

/// The builder after one option of an acknowledgement: the first router
/// is kept, the DNS servers are added.
pub open spec fn builder_step(b: LeaseBuilderView, o: AckOption) -> LeaseBuilderView {
    match o {
        AckOption::SubnetMask(m) => LeaseBuilderView { subnet_mask: Some(m), ..b },
        AckOption::Router(r) => LeaseBuilderView { router: Some(r@[0]), ..b },
        AckOption::DomainNameServer(s) => LeaseBuilderView { dns_servers: b.dns_servers + s@, ..b },
        AckOption::AddressLeaseTime(t) => LeaseBuilderView { lease_time: t, ..b },
        AckOption::Renewal(t) => LeaseBuilderView { renewal_time: Some(t), ..b },
        AckOption::Rebinding(t) => LeaseBuilderView { rebinding_time: Some(t), ..b },
        AckOption::Other => b,
    }
}

/// The builder after the options, in order.
pub open spec fn builder_fold(b: LeaseBuilderView, options: Seq<AckOption>) -> LeaseBuilderView
    decreases options.len(),
{
    if options.len() == 0 {
        b
    } else {
        builder_step(builder_fold(b, options.drop_last()), options.last())
    }
}

/// The address lists of the DNS options of an acknowledgement, in order
/// (an empty list for every other option).
pub open spec fn dns_lists(options: Seq<AckOption>) -> Seq<Seq<Ipv4Addr>> {
    options.map_values(
        |o: AckOption|
            match o {
                AckOption::DomainNameServer(s) => s@,
                _ => Seq::empty(),
            },
    )
}

/// Building from an acknowledgement adds every address of every DNS
/// option, in order, after the servers the builder had: none is lost.
pub proof fn lemma_ack_keeps_every_dns_server(b: LeaseBuilderView, options: Seq<AckOption>)
    ensures
        builder_fold(b, options).dns_servers == b.dns_servers + dns_lists(options).flatten(),
    decreases options.len(),
{
    dns_lists(options).lemma_flatten_and_flatten_alt_are_equivalent();
    if options.len() > 0 {
        lemma_ack_keeps_every_dns_server(b, options.drop_last());
        dns_lists(options.drop_last()).lemma_flatten_and_flatten_alt_are_equivalent();
        assert(dns_lists(options).drop_last() =~= dns_lists(options.drop_last()));
        assert(dns_lists(options).last() == (match options.last() {
            AckOption::DomainNameServer(s) => s@,
            _ => Seq::<Ipv4Addr>::empty(),
        }));
        assert(builder_fold(b, options).dns_servers =~= b.dns_servers + dns_lists(options).flatten());
    } else {
        assert(b.dns_servers + dns_lists(options).flatten() =~= b.dns_servers);
    }
}

/// The builder of a new lease: the offered address and the server, nothing
/// else yet.
pub open spec fn fresh_builder(yiaddr: Ipv4Addr, server_id: Ipv4Addr) -> LeaseBuilderView {
    LeaseBuilderView {
        assigned_ip: Some(yiaddr),
        server_id: Some(server_id),
        subnet_mask: None,
        router: None,
        dns_servers: Seq::empty(),
        lease_time: 0,
        renewal_time: None,
        rebinding_time: None,
    }
}

/// Appends the addresses of `more` to `list`.
fn extend_addrs(list: &mut Vec<Ipv4Addr>, more: &Vec<Ipv4Addr>)
    ensures
        final(list)@ == old(list)@ + more@,
{
    let mut i: usize = 0;
    while i < more.len()
        invariant
            0 <= i <= more@.len(),
            list@ == old(list)@ + more@.take(i as int),
        decreases more@.len() - i,
    {
        list.push(more[i]);
        i = i + 1;
        assert(list@ =~= old(list)@ + more@.take(i as int));
    }
    assert(more@.take(more@.len() as int) =~= more@);
}

/// The lease that an acknowledgement grants: the offered address from the
/// server, with the subnet mask, first router, DNS servers and timers of
/// its options, in order. An acknowledgement without a subnet mask is
/// refused as invalid.
pub fn lease_from_ack(yiaddr: Ipv4Addr, server_id: Ipv4Addr, options: &Vec<AckOption>) -> (r: Result<
    Lease,
    DhcpClientError,
>)
    requires
        routers_listed(options@),
    ensures
        ({
            let b = builder_fold(fresh_builder(yiaddr, server_id), options@);
            match missing_field(b) {
                Some(_) => r matches Err(DhcpClientError::InvalidResponse),
                None => r matches Ok(lease) && {
                    &&& lease.assigned_ip == yiaddr
                    &&& lease.server_id == server_id
                    &&& Some(lease.subnet_mask) == b.subnet_mask
                    &&& lease.router == b.router
                    &&& lease.dns_servers@ == b.dns_servers
                    &&& lease.dns_servers@ == dns_lists(options@).flatten()
                    &&& lease.lease_time == b.lease_time
                    &&& lease.renewal_time == renewal_of(b)
                    &&& lease.rebinding_time == rebinding_of(b)
                },
            }
        }),
{
    let mut builder = LeaseBuilder::new().set_assigned_ip(yiaddr).set_server_id(server_id);
    proof {
        assert(builder@.dns_servers =~= Seq::<Ipv4Addr>::empty());
        assert(options@.take(0) =~= Seq::<AckOption>::empty());
    }
    let mut i: usize = 0;
    while i < options.len()
        invariant
            0 <= i <= options@.len(),
            routers_listed(options@),
            builder@ == builder_fold(fresh_builder(yiaddr, server_id), options@.take(i as int)),
            builder@.assigned_ip == Some(yiaddr),
            builder@.server_id == Some(server_id),
        decreases options@.len() - i,
    {
        proof {
            assert(options@.take(i as int + 1).drop_last() =~= options@.take(i as int));
        }
        match &options[i] {
            AckOption::SubnetMask(mask) => {
                builder = builder.set_subnet_mask(*mask);
            },
            AckOption::Router(router) => {
                assert(options@[i as int] matches AckOption::Router(r) ==> r@.len() > 0);
                builder = builder.set_router(router[0]);
            },
            AckOption::DomainNameServer(servers) => {
                let mut j: usize = 0;
                let ghost start = builder@;
                while j < servers.len()
                    invariant
                        0 <= j <= servers@.len(),
                        builder@ == (LeaseBuilderView {
                            dns_servers: start.dns_servers + servers@.take(j as int),
                            ..start
                        }),
                    decreases servers@.len() - j,
                {
                    builder = builder.add_dns_server(servers[j]);
                    j = j + 1;
                    assert(start.dns_servers + servers@.take(j as int) =~= start.dns_servers
                        + servers@.take(j - 1).push(servers@[j - 1]));
                }
                assert(servers@.take(servers@.len() as int) =~= servers@);
            },
            AckOption::AddressLeaseTime(time) => {
                builder = builder.set_lease_time(*time);
            },
            AckOption::Renewal(time) => {
                builder = builder.set_renewal_time(*time);
            },
            AckOption::Rebinding(time) => {
                builder = builder.set_rebinding_time(*time);
            },
            AckOption::Other => {},
        }
        i = i + 1;
    }
    proof {
        assert(options@.take(options@.len() as int) =~= options@);
        lemma_ack_keeps_every_dns_server(fresh_builder(yiaddr, server_id), options@);
        assert(Seq::<Ipv4Addr>::empty() + dns_lists(options@).flatten() =~= dns_lists(options@).flatten());
    }
    match builder.build() {
        Ok(lease) => Ok(lease),
        Err(_) => Err(DhcpClientError::InvalidResponse),
    }
}

/// The plain contents of a lease.
pub struct LeaseView {
    pub assigned_ip: Ipv4Addr,
    pub server_id: Ipv4Addr,
    pub subnet_mask: Ipv4Addr,
    pub router: Option<Ipv4Addr>,
    pub dns_servers: Seq<Ipv4Addr>,
    pub lease_time: u32,
    pub renewal_time: u32,
    pub rebinding_time: u32,
}

/// The plain contents of a lease.
pub open spec fn lease_view(l: Lease) -> LeaseView {
    LeaseView {
        assigned_ip: l.assigned_ip,
        server_id: l.server_id,
        subnet_mask: l.subnet_mask,
        router: l.router,
        dns_servers: l.dns_servers@,
        lease_time: l.lease_time,
        renewal_time: l.renewal_time,
        rebinding_time: l.rebinding_time,
    }
}

/// The lease after one option of a renewal's acknowledgement: a new DNS
/// list replaces the old one.
pub open spec fn renewed_step(l: LeaseView, o: AckOption) -> LeaseView {
    match o {
        AckOption::SubnetMask(m) => LeaseView { subnet_mask: m, ..l },
        AckOption::Router(r) => LeaseView { router: Some(r@[0]), ..l },
        AckOption::DomainNameServer(s) => LeaseView { dns_servers: s@, ..l },
        AckOption::AddressLeaseTime(t) => LeaseView { lease_time: t, ..l },
        AckOption::Renewal(t) => LeaseView { renewal_time: t, ..l },
        AckOption::Rebinding(t) => LeaseView { rebinding_time: t, ..l },
        AckOption::Other => l,
    }
}

/// The lease after the options of a renewal's acknowledgement, in order.
pub open spec fn renewed_fold(l: LeaseView, options: Seq<AckOption>) -> LeaseView
    decreases options.len(),
{
    if options.len() == 0 {
        l
    } else {
        renewed_step(renewed_fold(l, options.drop_last()), options.last())
    }
}

/// Applies the options of a renewal's (or rebinding's) acknowledgement to
/// the current lease, in order; the address and server are kept.
pub fn renew_lease(lease: &mut Lease, options: &Vec<AckOption>)
    requires
        routers_listed(options@),
    ensures
        lease_view(*final(lease)) == renewed_fold(lease_view(*old(lease)), options@),
{
    let mut i: usize = 0;
    while i < options.len()
        invariant
            0 <= i <= options@.len(),
            routers_listed(options@),
            lease_view(*lease) == renewed_fold(lease_view(*old(lease)), options@.take(i as int)),
        decreases options@.len() - i,
    {
        proof {
            assert(options@.take(i as int + 1).drop_last() =~= options@.take(i as int));
        }
        match &options[i] {
            AckOption::SubnetMask(mask) => {
                lease.subnet_mask = *mask;
            },
            AckOption::Router(router) => {
                assert(options@[i as int] matches AckOption::Router(r) ==> r@.len() > 0);
                lease.router = Some(router[0]);
            },
            AckOption::DomainNameServer(servers) => {
                let mut list: Vec<Ipv4Addr> = Vec::new();
                extend_addrs(&mut list, servers);
                assert(list@ =~= servers@);
                lease.dns_servers = list;
            },
            AckOption::AddressLeaseTime(time) => {
                lease.lease_time = *time;
            },
            AckOption::Renewal(time) => {
                lease.renewal_time = *time;
            },
            AckOption::Rebinding(time) => {
                lease.rebinding_time = *time;
            },
            AckOption::Other => {},
        }
        i = i + 1;
    }
    proof {
        assert(options@.take(options@.len() as int) =~= options@);
    }
}

/// A renewal keeps the leased address and the server that granted it.
pub proof fn lemma_renewal_keeps_address(l: LeaseView, options: Seq<AckOption>)
    ensures
        renewed_fold(l, options).assigned_ip == l.assigned_ip,
        renewed_fold(l, options).server_id == l.server_id,
    decreases options.len(),
{
    if options.len() > 0 {
        lemma_renewal_keeps_address(l, options.drop_last());
    }
}

} // verus!
