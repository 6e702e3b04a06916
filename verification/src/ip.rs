//! Address types and the prefix keys that buckets are grouped under.
//!
//! An IPv4 address is keyed whole. An IPv6 address yields three keys: its
//! first 48 bits, the following byte (48..56) and the byte after that
//! (56..64); addresses sharing a prefix share the bucket group of that
//! prefix.

use vstd::prelude::*;

verus! {

/// An IPv4 address as its four octets.
#[derive(Clone, Copy, Debug, PartialEq, Eq)]
pub struct Ipv4Addr {
    pub octets: [u8; 4],
}

impl Ipv4Addr {
    /// The address `a.b.c.d`.
    pub fn new(a: u8, b: u8, c: u8, d: u8) -> (r: Ipv4Addr)
        ensures
            r.octets@ =~= seq![a, b, c, d],
    {
        Ipv4Addr { octets: [a, b, c, d] }
    }

    /// The loopback address, used as the stand-in key for sources whose
    /// address cannot be determined.
    pub fn loopback() -> (r: Ipv4Addr)
        ensures
            r.octets@ =~= seq![127u8, 0u8, 0u8, 1u8],
    {
        Ipv4Addr { octets: [127, 0, 0, 1] }
    }

    /// The address as a single integer: its four octets in base 256.
    pub open spec fn spec_key(self) -> u64 {
        (self.octets@[0] * 0x100_0000 + self.octets@[1] * 0x1_0000 + self.octets@[2] * 0x100
            + self.octets@[3]) as u64
    }

    /// Compute the bucket key of this address.
    pub fn key(&self) -> (k: u64)
        ensures
            k == self.spec_key(),
    {
        (self.octets[0] as u64) * 0x100_0000 + (self.octets[1] as u64) * 0x1_0000 + (
        self.octets[2] as u64) * 0x100 + (self.octets[3] as u64)
    }

    /// Distinct addresses have distinct keys.
    pub proof fn lemma_key_injective(a: Ipv4Addr, b: Ipv4Addr)
        requires
            a.spec_key() == b.spec_key(),
        ensures
            a.octets@ =~= b.octets@,
    {
        assert(a.octets@.len() == 4 && b.octets@.len() == 4);
        assert(a.octets@[0] == b.octets@[0] && a.octets@[1] == b.octets@[1] && a.octets@[2]
            == b.octets@[2] && a.octets@[3] == b.octets@[3]) by {
            let x0 = a.octets@[0] as int;
            let x1 = a.octets@[1] as int;
            let x2 = a.octets@[2] as int;
            let x3 = a.octets@[3] as int;
            let y0 = b.octets@[0] as int;
            let y1 = b.octets@[1] as int;
            let y2 = b.octets@[2] as int;
            let y3 = b.octets@[3] as int;
            assert(x0 * 0x100_0000 + x1 * 0x1_0000 + x2 * 0x100 + x3 == y0 * 0x100_0000 + y1
                * 0x1_0000 + y2 * 0x100 + y3);
        }
    }
}

/// An IPv6 address as its sixteen octets.
#[derive(Clone, Copy, Debug, PartialEq, Eq)]
pub struct Ipv6Addr {
    pub octets: [u8; 16],
}

impl Ipv6Addr {
    /// The address written as eight 16-bit segments, each split into its
    /// high and low octet.
    #[allow(clippy::too_many_arguments)]
    pub fn new(
        s0: u16,
        s1: u16,
        s2: u16,
        s3: u16,
        s4: u16,
        s5: u16,
        s6: u16,
        s7: u16,
    ) -> (r: Ipv6Addr)
        ensures
            r.octets@ =~= seq![
                (s0 / 0x100) as u8,
                (s0 % 0x100) as u8,
                (s1 / 0x100) as u8,
                (s1 % 0x100) as u8,
                (s2 / 0x100) as u8,
                (s2 % 0x100) as u8,
                (s3 / 0x100) as u8,
                (s3 % 0x100) as u8,
                (s4 / 0x100) as u8,
                (s4 % 0x100) as u8,
                (s5 / 0x100) as u8,
                (s5 % 0x100) as u8,
                (s6 / 0x100) as u8,
                (s6 % 0x100) as u8,
                (s7 / 0x100) as u8,
                (s7 % 0x100) as u8,
            ],
    {
        Ipv6Addr {
            octets: [
                (s0 / 0x100) as u8,
                (s0 % 0x100) as u8,
                (s1 / 0x100) as u8,
                (s1 % 0x100) as u8,
                (s2 / 0x100) as u8,
                (s2 % 0x100) as u8,
                (s3 / 0x100) as u8,
                (s3 % 0x100) as u8,
                (s4 / 0x100) as u8,
                (s4 % 0x100) as u8,
                (s5 / 0x100) as u8,
                (s5 % 0x100) as u8,
                (s6 / 0x100) as u8,
                (s6 % 0x100) as u8,
                (s7 / 0x100) as u8,
                (s7 % 0x100) as u8,
            ],
        }
    }

    /// The first 48 bits as a single integer: octets 0 through 5 in base
    /// 256.
    pub open spec fn spec_key48(self) -> u64 {
        (self.octets@[0] * 0x100_0000_0000 + self.octets@[1] * 0x1_0000_0000 + self.octets@[2]
            * 0x100_0000 + self.octets@[3] * 0x1_0000 + self.octets@[4] * 0x100
            + self.octets@[5]) as u64
    }

    /// Bits 48 through 55: the seventh octet.
    pub open spec fn spec_key56(self) -> u64 {
        self.octets@[6] as u64
    }

    /// Bits 56 through 63: the eighth octet.
    pub open spec fn spec_key64(self) -> u64 {
        self.octets@[7] as u64
    }

    /// Compute the /48 bucket key of this address.
    pub fn key48(&self) -> (k: u64)
        ensures
            k == self.spec_key48(),
    {
        (self.octets[0] as u64) * 0x100_0000_0000 + (self.octets[1] as u64) * 0x1_0000_0000 + (
        self.octets[2] as u64) * 0x100_0000 + (self.octets[3] as u64) * 0x1_0000 + (
        self.octets[4] as u64) * 0x100 + (self.octets[5] as u64)
    }

    /// Compute the /56 bucket key of this address.
    pub fn key56(&self) -> (k: u64)
        ensures
            k == self.spec_key56(),
    {
        self.octets[6] as u64
    }

    /// Compute the /64 bucket key of this address.
    pub fn key64(&self) -> (k: u64)
        ensures
            k == self.spec_key64(),
    {
        self.octets[7] as u64
    }
}

/// The three nesting keys of an IPv6 address: its first six octets, then
/// the seventh and eighth octet.
pub fn split_ipv6(ip: Ipv6Addr) -> (r: ([u8; 6], u8, u8))
    ensures
        r.0@ =~= ip.octets@.subrange(0, 6),
        r.1 == ip.octets@[6],
        r.2 == ip.octets@[7],
{
    (
        [ip.octets[0], ip.octets[1], ip.octets[2], ip.octets[3], ip.octets[4], ip.octets[5]],
        ip.octets[6],
        ip.octets[7],
    )
}

/// A source address of either family.
#[derive(Clone, Copy, Debug, PartialEq, Eq)]
pub enum IpAddr {
    V4(Ipv4Addr),
    V6(Ipv6Addr),
}

} // verus!
