//! IP addresses with a prefix length, and the network they belong to.
use vstd::prelude::*;

use crate::text::{nat_text, push_char, push_decimal};

verus! {

/// An IPv4 address, held as its 32 bits in network order
/// (the first octet is the most significant byte).
#[derive(Debug, Clone, Copy, PartialEq, Eq, Hash, Structural)]
pub struct Ipv4Addr {
    pub bits: u32,
}

/// An IPv6 address, held as its 128 bits in network order.
#[derive(Debug, Clone, Copy, PartialEq, Eq, Hash, Structural)]
pub struct Ipv6Addr {
    pub bits: u128,
}

/// The 32-bit value of four octets, the first one most significant.
pub open spec fn v4_bits(a: u8, b: u8, c: u8, d: u8) -> int {
    a * 0x100_0000 + b * 0x1_0000 + c * 0x100 + d
}

/// The 128-bit value of eight 16-bit segments, the first one most significant.
pub open spec fn v6_bits(a: u16, b: u16, c: u16, d: u16, e: u16, f: u16, g: u16, h: u16) -> int {
    a * 0x1_0000_0000_0000_0000_0000_0000_0000 + b * 0x1_0000_0000_0000_0000_0000_0000
        + c * 0x1_0000_0000_0000_0000_0000 + d * 0x1_0000_0000_0000_0000 + e * 0x1_0000_0000_0000
        + f * 0x1_0000_0000 + g * 0x1_0000 + h
}

impl Ipv4Addr {
    /// The unspecified address `0.0.0.0`.
    pub fn unspecified() -> (r: Ipv4Addr)
        ensures
            r.bits == 0,
    {
        Ipv4Addr { bits: 0 }
    }

    /// The address `a.b.c.d`.
    pub fn new(a: u8, b: u8, c: u8, d: u8) -> (r: Ipv4Addr)
        ensures
            r.bits == v4_bits(a, b, c, d),
    {
        let bits: u32 = (a as u32) * 0x100_0000 + (b as u32) * 0x1_0000 + (c as u32) * 0x100
            + (d as u32);
        Ipv4Addr { bits }
    }

    /// The address with the given 32 bits.
    pub fn from_bits(bits: u32) -> (r: Ipv4Addr)
        ensures
            r.bits == bits,
    {
        Ipv4Addr { bits }
    }

    /// The dotted-decimal text `a.b.c.d`.
    pub fn to_string(&self) -> (r: String)
        ensures
            r@ == v4_addr_text(self.bits),
    {
        let mut s = String::new();
        push_v4(&mut s, self.bits);
        assert(s@ =~= v4_addr_text(self.bits));
        s
    }

    /// The 32 bits of the address.
    pub fn to_bits(&self) -> (r: u32)
        ensures
            r == self.bits,
    {
        self.bits
    }

    /// The four octets, the first one most significant.
    pub fn octets(&self) -> (r: [u8; 4])
        ensures
            r@.len() == 4,
            v4_bits(r@[0], r@[1], r@[2], r@[3]) == self.bits,
    {
        let b = self.bits;
        let o0: u8 = (b / 0x100_0000) as u8;
        let o1: u8 = ((b / 0x1_0000) % 0x100) as u8;
        let o2: u8 = ((b / 0x100) % 0x100) as u8;
        let o3: u8 = (b % 0x100) as u8;
        [o0, o1, o2, o3]
    }
}

impl Ipv6Addr {
    /// The unspecified address `::`.
    pub fn unspecified() -> (r: Ipv6Addr)
        ensures
            r.bits == 0,
    {
        Ipv6Addr { bits: 0 }
    }

    /// The address made of eight 16-bit segments.
    pub fn new(a: u16, b: u16, c: u16, d: u16, e: u16, f: u16, g: u16, h: u16) -> (r: Ipv6Addr)
        ensures
            r.bits == v6_bits(a, b, c, d, e, f, g, h),
    {
        let bits: u128 = (a as u128) * 0x1_0000_0000_0000_0000_0000_0000_0000 + (b as u128)
            * 0x1_0000_0000_0000_0000_0000_0000 + (c as u128) * 0x1_0000_0000_0000_0000_0000
            + (d as u128) * 0x1_0000_0000_0000_0000 + (e as u128) * 0x1_0000_0000_0000 + (f as u128)
            * 0x1_0000_0000 + (g as u128) * 0x1_0000 + (h as u128);
        Ipv6Addr { bits }
    }

    /// The address with the given 128 bits.
    pub fn from_bits(bits: u128) -> (r: Ipv6Addr)
        ensures
            r.bits == bits,
    {
        Ipv6Addr { bits }
    }

    /// The 128 bits of the address.
    pub fn to_bits(&self) -> (r: u128)
        ensures
            r == self.bits,
    {
        self.bits
    }
}

/// The IPv4 netmask of a prefix length: the `prefix_len` high bits set.
pub open spec fn v4_mask(prefix_len: u8) -> u32 {
    if prefix_len == 0 {
        0
    } else {
        u32::MAX << ((32 - prefix_len) as u32)
    }
}

/// The IPv6 netmask of a prefix length: the `prefix_len` high bits set.
pub open spec fn v6_mask(prefix_len: u8) -> u128 {
    if prefix_len == 0 {
        0
    } else {
        u128::MAX << ((128 - prefix_len) as u32)
    }
}

/// An IPv4 address with a prefix length.
#[derive(Debug, Clone, Copy, PartialEq, Eq, Hash, Structural)]
pub struct PrefixedIpv4Addr {
    pub addr: Ipv4Addr,
    pub prefix_len: u8,
}

/// The dotted-decimal text `a.b.c.d` of an IPv4 address.
pub open spec fn v4_addr_text(bits: u32) -> Seq<char> {
    nat_text((bits / 0x100_0000) as nat) + seq!['.'] + nat_text(((bits / 0x1_0000) % 0x100) as nat)
        + seq!['.'] + nat_text(((bits / 0x100) % 0x100) as nat) + seq!['.'] + nat_text(
        (bits % 0x100) as nat,
    )
}

/// The text `a.b.c.d/p` of a prefixed IPv4 address.
pub open spec fn v4_text(bits: u32, prefix_len: u8) -> Seq<char> {
    v4_addr_text(bits) + seq!['/'] + nat_text(prefix_len as nat)
}

/// Appends the dotted-decimal text of an IPv4 address.
pub fn push_v4(s: &mut String, bits: u32)
    ensures
        final(s)@ == old(s)@ + v4_addr_text(bits),
{
    push_decimal(s, (bits / 0x100_0000) as u64);
    push_char(s, '.');
    push_decimal(s, ((bits / 0x1_0000) % 0x100) as u64);
    push_char(s, '.');
    push_decimal(s, ((bits / 0x100) % 0x100) as u64);
    push_char(s, '.');
    push_decimal(s, (bits % 0x100) as u64);
    assert(s@ =~= old(s)@ + v4_addr_text(bits));
}

impl PrefixedIpv4Addr {
    /// `0.0.0.0/0`.
    pub fn unspecified() -> (r: PrefixedIpv4Addr)
        ensures
            r.addr.bits == 0,
            r.prefix_len == 0,
    {
        PrefixedIpv4Addr { addr: Ipv4Addr { bits: 0 }, prefix_len: 0 }
    }

    /// The address `addr` with the prefix length `prefix_len`.
    pub fn new(addr: Ipv4Addr, prefix_len: u8) -> (r: PrefixedIpv4Addr)
        ensures
            r.addr == addr,
            r.prefix_len == prefix_len,
    {
        PrefixedIpv4Addr { addr, prefix_len }
    }

    /// The network the address belongs to: its host bits cleared, the
    /// prefix length kept.
    pub fn net_id(&self) -> (r: PrefixedIpv4Addr)
        requires
            self.prefix_len <= 32,
        ensures
            r.addr.bits == self.addr.bits & v4_mask(self.prefix_len),
            r.prefix_len == self.prefix_len,
    {
        let mask: u32 = if self.prefix_len == 0 {
            0
        } else {
            u32::MAX << (32 - self.prefix_len as u32)
        };
        PrefixedIpv4Addr {
            addr: Ipv4Addr { bits: self.addr.bits & mask },
            prefix_len: self.prefix_len,
        }
    }

    /// The text `a.b.c.d/p`.
    pub fn to_string(&self) -> (r: String)
        ensures
            r@ == v4_text(self.addr.bits, self.prefix_len),
    {
        let mut s = String::new();
        push_v4(&mut s, self.addr.bits);
        push_char(&mut s, '/');
        push_decimal(&mut s, self.prefix_len as u64);
        assert(s@ =~= v4_text(self.addr.bits, self.prefix_len));
        s
    }
}

/// Taking the network of a network changes nothing, and with the full
/// prefix length the network is the address itself.
pub proof fn lemma_v4_net_id(bits: u32, prefix_len: u8)
    requires
        prefix_len <= 32,
    ensures
        (bits & v4_mask(prefix_len)) & v4_mask(prefix_len) == bits & v4_mask(prefix_len),
        prefix_len == 32 ==> bits & v4_mask(prefix_len) == bits,
        prefix_len == 0 ==> bits & v4_mask(prefix_len) == 0,
{
    let m = v4_mask(prefix_len);
    assert((bits & m) & m == bits & m) by (bit_vector);
    if prefix_len == 32 {
        assert(u32::MAX << 0u32 == u32::MAX) by (bit_vector);
        assert(bits & u32::MAX == bits) by (bit_vector);
    }
    if prefix_len == 0 {
        assert(bits & 0 == 0) by (bit_vector);
    }
}

/// An IPv6 address with a prefix length.
#[derive(Debug, Clone, Copy, PartialEq, Eq, Hash, Structural)]
pub struct PrefixedIpv6Addr {
    pub addr: Ipv6Addr,
    pub prefix_len: u8,
}

impl PrefixedIpv6Addr {
    /// `::/0`.
    pub fn unspecified() -> (r: PrefixedIpv6Addr)
        ensures
            r.addr.bits == 0,
            r.prefix_len == 0,
    {
        PrefixedIpv6Addr { addr: Ipv6Addr { bits: 0 }, prefix_len: 0 }
    }

    /// The address `addr` with the prefix length `prefix_len`.
    pub fn new(addr: Ipv6Addr, prefix_len: u8) -> (r: PrefixedIpv6Addr)
        ensures
            r.addr == addr,
            r.prefix_len == prefix_len,
    {
        PrefixedIpv6Addr { addr, prefix_len }
    }

    /// The network the address belongs to: its host bits cleared, the
    /// prefix length kept.
    pub fn net_id(&self) -> (r: PrefixedIpv6Addr)
        requires
            self.prefix_len <= 128,
        ensures
            r.addr.bits == self.addr.bits & v6_mask(self.prefix_len),
            r.prefix_len == self.prefix_len,
    {
        let mask: u128 = if self.prefix_len == 0 {
            0
        } else {
            u128::MAX << (128 - self.prefix_len as u32)
        };
        PrefixedIpv6Addr {
            addr: Ipv6Addr { bits: self.addr.bits & mask },
            prefix_len: self.prefix_len,
        }
    }
}

/// Taking the network of a network changes nothing, and with the full
/// prefix length the network is the address itself.
pub proof fn lemma_v6_net_id(bits: u128, prefix_len: u8)
    requires
        prefix_len <= 128,
    ensures
        (bits & v6_mask(prefix_len)) & v6_mask(prefix_len) == bits & v6_mask(prefix_len),
        prefix_len == 128 ==> bits & v6_mask(prefix_len) == bits,
        prefix_len == 0 ==> bits & v6_mask(prefix_len) == 0,
{
    let m = v6_mask(prefix_len);
    assert((bits & m) & m == bits & m) by (bit_vector);
    if prefix_len == 128 {
        assert(u128::MAX << 0u32 == u128::MAX) by (bit_vector);
        assert(bits & u128::MAX == bits) by (bit_vector);
    }
    if prefix_len == 0 {
        assert(bits & 0 == 0) by (bit_vector);
    }
}

/// An IPv4 or IPv6 address with a prefix length.
#[derive(Debug, Clone, Copy, PartialEq, Eq, Hash, Structural)]
pub enum PrefixedIpAddr {
    V4(PrefixedIpv4Addr),
    V6(PrefixedIpv6Addr),
}

/// An IPv4 or IPv6 address.
#[derive(Debug, Clone, Copy, PartialEq, Eq, Hash, Structural)]
pub enum IpAddr {
    V4(Ipv4Addr),
    V6(Ipv6Addr),
}

/// Conversion of an address into a prefixed address.
pub trait IntoPrefixed<T> {
    fn into_prefixed(self, prefix_len: u8) -> T;
}

impl IntoPrefixed<PrefixedIpAddr> for IpAddr {
    fn into_prefixed(self, prefix_len: u8) -> (r: PrefixedIpAddr)
        ensures
            r == (match self {
                IpAddr::V4(a) => PrefixedIpAddr::V4(PrefixedIpv4Addr { addr: a, prefix_len }),
                IpAddr::V6(a) => PrefixedIpAddr::V6(PrefixedIpv6Addr { addr: a, prefix_len }),
            }),
    {
        match self {
            IpAddr::V4(v4) => PrefixedIpAddr::V4(PrefixedIpv4Addr::new(v4, prefix_len)),
            IpAddr::V6(v6) => PrefixedIpAddr::V6(PrefixedIpv6Addr::new(v6, prefix_len)),
        }
    }
}

impl IntoPrefixed<PrefixedIpv4Addr> for Ipv4Addr {
    fn into_prefixed(self, prefix_len: u8) -> (r: PrefixedIpv4Addr)
        ensures
            r == (PrefixedIpv4Addr { addr: self, prefix_len }),
    {
        PrefixedIpv4Addr::new(self, prefix_len)
    }
}

impl IntoPrefixed<PrefixedIpv6Addr> for Ipv6Addr {
    fn into_prefixed(self, prefix_len: u8) -> (r: PrefixedIpv6Addr)
        ensures
            r == (PrefixedIpv6Addr { addr: self, prefix_len }),
    {
        PrefixedIpv6Addr::new(self, prefix_len)
    }
}

impl PrefixedIpAddr {
    /// The IPv4 form of an address.
    pub fn from_v4(addr: PrefixedIpv4Addr) -> (r: PrefixedIpAddr)
        ensures
            r == PrefixedIpAddr::V4(addr),
    {
        PrefixedIpAddr::V4(addr)
    }

    /// The IPv6 form of an address.
    pub fn from_v6(addr: PrefixedIpv6Addr) -> (r: PrefixedIpAddr)
        ensures
            r == PrefixedIpAddr::V6(addr),
    {
        PrefixedIpAddr::V6(addr)
    }
}

} // verus!
