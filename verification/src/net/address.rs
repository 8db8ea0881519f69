//! IPv4 and IPv6 addresses as plain integers.

use vstd::prelude::*;

verus! {

/// An IPv4 address, held as its 32 bits in network order (the first octet is the most
/// significant byte).
#[derive(Clone, Copy, Debug, PartialEq, Eq, Structural, Hash)]
pub struct Ipv4Addr {
    pub bits: u32,
}

/// An IPv6 address, held as its 128 bits in network order (the first segment is the most
/// significant sixteen bits).
#[derive(Clone, Copy, Debug, PartialEq, Eq, Structural, Hash)]
pub struct Ipv6Addr {
    pub bits: u128,
}

/// An address of either family.
#[derive(Clone, Copy, Debug, PartialEq, Eq, Structural, Hash)]
pub enum IpAddr {
    V4(Ipv4Addr),
    V6(Ipv6Addr),
}

/// The bits of the IPv4 address `a.b.c.d`.
pub open spec fn octets_bits(a: u8, b: u8, c: u8, d: u8) -> u32 {
    (a as u32) << 24 | (b as u32) << 16 | (c as u32) << 8 | (d as u32)
}

/// The bits of the IPv6 address `a:b:c:d:e:f:g:h`.
pub open spec fn segments_bits(
    a: u16,
    b: u16,
    c: u16,
    d: u16,
    e: u16,
    f: u16,
    g: u16,
    h: u16,
) -> u128 {
    (a as u128) << 112 | (b as u128) << 96 | (c as u128) << 80 | (d as u128) << 64 | (e as u128)
        << 48 | (f as u128) << 32 | (g as u128) << 16 | (h as u128)
}

/// The bits of the IPv4-mapped IPv6 address `::ffff:a.b.c.d` of the IPv4 address with
/// bits `v4`.
pub open spec fn ipv4_mapped_bits(v4: u32) -> u128 {
    0xffff_0000_0000u128 | (v4 as u128)
}

/// The address is IPv4-mapped: its upper 80 bits are zero and the next 16 are `0xffff`.
pub open spec fn is_ipv4_mapped_bits(bits: u128) -> bool {
    bits >> 32 == 0xffffu128
}

/// The address lies in `fe80::/10`.
pub open spec fn is_link_local_bits(bits: u128) -> bool {
    (bits >> 112) & 0xffc0 == 0xfe80
}

/// The IPv6 address that stands for an address of either family: an IPv4 address is
/// mapped, an IPv6 address is kept.
pub open spec fn mapped_ip(ip: IpAddr) -> Ipv6Addr {
    match ip {
        IpAddr::V4(v4) => Ipv6Addr { bits: ipv4_mapped_bits(v4.bits) },
        IpAddr::V6(v6) => v6,
    }
}

/// The mapped form of an IPv4 address is IPv4-mapped, and its low 32 bits are the IPv4
/// address.
pub proof fn lemma_mapped_bits(v4: u32)
    ensures
        is_ipv4_mapped_bits(ipv4_mapped_bits(v4)),
        ipv4_mapped_bits(v4) & 0xffff_ffff == v4,
        !is_link_local_bits(ipv4_mapped_bits(v4)),
{
    assert((0xffff_0000_0000u128 | (v4 as u128)) >> 32 == 0xffffu128) by (bit_vector);
    assert((0xffff_0000_0000u128 | (v4 as u128)) & 0xffff_ffff == v4) by (bit_vector);
    assert(((0xffff_0000_0000u128 | (v4 as u128)) >> 112) & 0xffc0 != 0xfe80) by (bit_vector);
}

impl Ipv4Addr {
    /// The address `a.b.c.d`.
    pub fn new(a: u8, b: u8, c: u8, d: u8) -> (r: Ipv4Addr)
        ensures
            r.bits == octets_bits(a, b, c, d),
    {
        Ipv4Addr { bits: (a as u32) << 24 | (b as u32) << 16 | (c as u32) << 8 | (d as u32) }
    }

    /// The address `::ffff:a.b.c.d` that stands for this IPv4 address in an IPv6 column.
    pub fn to_ipv6_mapped(&self) -> (r: Ipv6Addr)
        ensures
            r.bits == ipv4_mapped_bits(self.bits),
            is_ipv4_mapped_bits(r.bits),
    {
        proof {
            lemma_mapped_bits(self.bits);
        }
        Ipv6Addr { bits: 0xffff_0000_0000u128 | (self.bits as u128) }
    }
}

impl Ipv6Addr {
    /// The address `a:b:c:d:e:f:g:h`.
    pub fn new(a: u16, b: u16, c: u16, d: u16, e: u16, f: u16, g: u16, h: u16) -> (r: Ipv6Addr)
        ensures
            r.bits == segments_bits(a, b, c, d, e, f, g, h),
    {
        Ipv6Addr {
            bits: (a as u128) << 112 | (b as u128) << 96 | (c as u128) << 80 | (d as u128) << 64
                | (e as u128) << 48 | (f as u128) << 32 | (g as u128) << 16 | (h as u128),
        }
    }
}

impl IpAddr {
    /// The IPv6 address that stands for this address: an IPv4 address is mapped, an
    /// IPv6 address is kept.
    pub fn to_ipv6(&self) -> (r: Ipv6Addr)
        ensures
            r == mapped_ip(*self),
    {
        match self {
            IpAddr::V4(v4) => v4.to_ipv6_mapped(),
            IpAddr::V6(v6) => *v6,
        }
    }
}

/// Whether the address lies in the link-local range `fe80::/10`.
pub fn is_ipv6_link_local(addr: &Ipv6Addr) -> (r: bool)
    ensures
        r == is_link_local_bits(addr.bits),
{
    (addr.bits >> 112) & 0xffc0 == 0xfe80
}

} // verus!
