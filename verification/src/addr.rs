//! Internet addresses as plain integers, and the address classes the proxy
//! tells apart when it decides which records a client can use.

use vstd::arithmetic::power2::{lemma2_to64, lemma2_to64_rest, lemma_pow2_adds, pow2};
use vstd::prelude::*;

verus! {

/// An IPv4 address; `bits` holds the four octets, the first one highest.
#[derive(Clone, Copy, Debug, PartialEq, Eq, Structural)]
pub struct Ipv4Address {
    pub bits: u32,
}

/// An IPv6 address; `bits` holds the sixteen octets, the first one highest.
#[derive(Clone, Copy, Debug, PartialEq, Eq, Structural)]
pub struct Ipv6Address {
    pub bits: u128,
}

/// An address of either family.
#[derive(Clone, Copy, Debug, PartialEq, Eq, Structural)]
pub enum IpAddress {
    V4(Ipv4Address),
    V6(Ipv6Address),
}

/// The leading `len` bits of a 32-bit address.
pub open spec fn v4_prefix(bits: u32, len: nat) -> int
    recommends
        len <= 32,
{
    bits as int / pow2((32 - len) as nat) as int
}

/// The leading `len` bits of a 128-bit address.
pub open spec fn v6_prefix(bits: u128, len: nat) -> int
    recommends
        len <= 128,
{
    bits as int / pow2((128 - len) as nat) as int
}

/// `169.254.0.0/16`.
pub open spec fn v4_link_local(bits: u32) -> bool {
    bits / 0x1_0000 == 0xa9fe
}

/// `127.0.0.0/8`.
pub open spec fn v4_loopback(bits: u32) -> bool {
    bits / 0x100_0000 == 0x7f
}

/// `10.0.0.0/8`, `172.16.0.0/12` or `192.168.0.0/16`.
pub open spec fn v4_private(bits: u32) -> bool {
    ||| bits / 0x100_0000 == 0x0a
    ||| bits / 0x10_0000 == 0xac1
    ||| bits / 0x1_0000 == 0xc0a8
}

/// The `/24` network of an IPv4 address: its first three octets.
pub open spec fn v4_network24(bits: u32) -> int {
    bits as int / 0x100
}

/// `fc00::/7`.
pub open spec fn v6_unique_local(bits: u128) -> bool {
    bits / 0x200_0000_0000_0000_0000_0000_0000_0000 == 0x7e
}

/// `fe80::/10`.
pub open spec fn v6_link_local(bits: u128) -> bool {
    bits / 0x40_0000_0000_0000_0000_0000_0000_0000 == 0x3fa
}

/// `::1`.
pub open spec fn v6_loopback(bits: u128) -> bool {
    bits == 1
}

/// The address classes above are prefixes: the divisors are the powers of
/// two that leave the leading 8, 12, 16, 24, 10 and 7 bits.
pub proof fn lemma_classes_are_prefixes(v4: u32, v6: u128)
    ensures
        v4_link_local(v4) <==> v4_prefix(v4, 16) == 0xa9fe,
        v4_loopback(v4) <==> v4_prefix(v4, 8) == 0x7f,
        v4_private(v4) <==> (v4_prefix(v4, 8) == 0x0a || v4_prefix(v4, 12) == 0xac1 || v4_prefix(
            v4,
            16,
        ) == 0xc0a8),
        v4_network24(v4) == v4_prefix(v4, 24),
        v6_unique_local(v6) <==> v6_prefix(v6, 7) == 0x7e,
        v6_link_local(v6) <==> v6_prefix(v6, 10) == 0x3fa,
{
    lemma2_to64();
    lemma2_to64_rest();
    lemma_pow2_adds(64, 57);
    lemma_pow2_adds(64, 54);
    assert(0x1_0000_0000_0000_0000 * 0x200_0000_0000_0000
        == 0x200_0000_0000_0000_0000_0000_0000_0000int) by (nonlinear_arith);
    assert(0x1_0000_0000_0000_0000 * 0x40_0000_0000_0000
        == 0x40_0000_0000_0000_0000_0000_0000_0000int) by (nonlinear_arith);
}

impl Ipv4Address {
    /// The address `a.b.c.d`.
    pub fn new(a: u8, b: u8, c: u8, d: u8) -> (addr: Ipv4Address)
        ensures
            addr.bits == a * 0x100_0000 + b * 0x1_0000 + c * 0x100 + d,
    {
        let hi: u32 = a as u32 * 0x100_0000 + b as u32 * 0x1_0000;
        let lo: u32 = c as u32 * 0x100 + d as u32;
        Ipv4Address { bits: hi + lo }
    }

    /// Whether the address is in `127.0.0.0/8`.
    pub fn is_loopback(&self) -> (r: bool)
        ensures
            r == v4_loopback(self.bits),
            r == (v4_prefix(self.bits, 8) == 0x7f),
    {
        proof {
            lemma_classes_are_prefixes(self.bits, 0);
        }
        self.bits / 0x100_0000 == 0x7f
    }

    /// Whether the address is in one of the private ranges.
    pub fn is_private(&self) -> (r: bool)
        ensures
            r == v4_private(self.bits),
            r == (v4_prefix(self.bits, 8) == 0x0a || v4_prefix(self.bits, 12) == 0xac1
                || v4_prefix(self.bits, 16) == 0xc0a8),
    {
        proof {
            lemma_classes_are_prefixes(self.bits, 0);
        }
        self.bits / 0x100_0000 == 0x0a || self.bits / 0x10_0000 == 0xac1 || self.bits / 0x1_0000
            == 0xc0a8
    }

    /// Whether the address is in `169.254.0.0/16`.
    pub fn is_link_local(&self) -> (r: bool)
        ensures
            r == v4_link_local(self.bits),
            r == (v4_prefix(self.bits, 16) == 0xa9fe),
    {
        proof {
            lemma_classes_are_prefixes(self.bits, 0);
        }
        self.bits / 0x1_0000 == 0xa9fe
    }

    /// Whether the two addresses are in one `/24` network.
    pub fn shares_network24(&self, other: &Ipv4Address) -> (r: bool)
        ensures
            r == (v4_network24(self.bits) == v4_network24(other.bits)),
            r == (v4_prefix(self.bits, 24) == v4_prefix(other.bits, 24)),
    {
        proof {
            lemma_classes_are_prefixes(self.bits, 0);
            lemma_classes_are_prefixes(other.bits, 0);
        }
        self.bits / 0x100 == other.bits / 0x100
    }
}

impl Ipv6Address {
    /// The address with the eight 16-bit groups `a:b:c:d:e:f:g:h`.
    pub fn new(a: u16, b: u16, c: u16, d: u16, e: u16, f: u16, g: u16, h: u16) -> (addr:
        Ipv6Address)
        ensures
            addr.bits == a * 0x1_0000_0000_0000_0000_0000_0000_0000 + b
                * 0x1_0000_0000_0000_0000_0000_0000 + c * 0x1_0000_0000_0000_0000_0000 + d
                * 0x1_0000_0000_0000_0000 + e * 0x1_0000_0000_0000 + f * 0x1_0000_0000 + g
                * 0x1_0000 + h,
    {
        let w0: u128 = a as u128 * 0x1_0000_0000_0000_0000_0000_0000_0000;
        let w1: u128 = b as u128 * 0x1_0000_0000_0000_0000_0000_0000;
        let w2: u128 = c as u128 * 0x1_0000_0000_0000_0000_0000;
        let w3: u128 = d as u128 * 0x1_0000_0000_0000_0000;
        let w4: u128 = e as u128 * 0x1_0000_0000_0000;
        let w5: u128 = f as u128 * 0x1_0000_0000;
        let w6: u128 = g as u128 * 0x1_0000;
        Ipv6Address { bits: w0 + w1 + w2 + w3 + w4 + w5 + w6 + h as u128 }
    }

    /// Whether the address is `::1`.
    pub fn is_loopback(&self) -> (r: bool)
        ensures
            r == v6_loopback(self.bits),
    {
        self.bits == 1
    }

    /// Whether the address is in `fc00::/7`.
    pub fn is_unique_local(&self) -> (r: bool)
        ensures
            r == v6_unique_local(self.bits),
            r == (v6_prefix(self.bits, 7) == 0x7e),
    {
        proof {
            lemma_classes_are_prefixes(0, self.bits);
        }
        self.bits / 0x200_0000_0000_0000_0000_0000_0000_0000 == 0x7e
    }

    /// Whether the address is in `fe80::/10`.
    pub fn is_link_local(&self) -> (r: bool)
        ensures
            r == v6_link_local(self.bits),
            r == (v6_prefix(self.bits, 10) == 0x3fa),
    {
        proof {
            lemma_classes_are_prefixes(0, self.bits);
        }
        self.bits / 0x40_0000_0000_0000_0000_0000_0000_0000 == 0x3fa
    }
}

} // verus!
