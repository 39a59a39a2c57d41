//! Plain-value model of IP addresses and CIDR prefixes.
//!
//! An IPv4 address is its 32-bit value, an IPv6 address its 128-bit value,
//! both in network (big-endian) integer form. A prefix is a base address and
//! a prefix length; containment compares the leading `len` bits.

use vstd::prelude::*;

verus! {

/// An IP address as a plain integer value.
#[derive(Clone, Copy, PartialEq, Eq, Structural, Debug)]
pub enum IpAddr {
    V4(u32),
    V6(u128),
}

impl IpAddr {
    pub open spec fn spec_is_v4(self) -> bool {
        self is V4
    }

    pub open spec fn spec_is_v6(self) -> bool {
        self is V6
    }

    pub fn is_ipv4(&self) -> (r: bool)
        ensures
            r == self.spec_is_v4(),
    {
        matches!(self, IpAddr::V4(_))
    }

    pub fn is_ipv6(&self) -> (r: bool)
        ensures
            r == self.spec_is_v6(),
    {
        matches!(self, IpAddr::V6(_))
    }
}

/// Two addresses are of the same family when both are IPv4 or both IPv6.
pub open spec fn same_family(a: IpAddr, b: IpAddr) -> bool {
    a is V4 <==> b is V4
}

/// Returns `Some(*ip)` when `ip` is of the same address family as `addr`,
/// `None` otherwise.
pub fn get_matching_version_ip(addr: &IpAddr, ip: &IpAddr) -> (r: Option<IpAddr>)
    ensures
        r == if same_family(*addr, *ip) {
            Some(*ip)
        } else {
            None::<IpAddr>
        },
{
    if (addr.is_ipv4() && ip.is_ipv4()) || (addr.is_ipv6() && ip.is_ipv6()) {
        Some(*ip)
    } else {
        None
    }
}

/// A CIDR prefix: a base address and the number of leading bits that must
/// match.
#[derive(Clone, Copy, PartialEq, Eq, Structural, Debug)]
pub struct IpPrefix {
    pub base: IpAddr,
    pub len: u8,
}

impl IpPrefix {
    /// The prefix length fits the base address family.
    pub open spec fn wf(self) -> bool {
        match self.base {
            IpAddr::V4(_) => self.len <= 32,
            IpAddr::V6(_) => self.len <= 128,
        }
    }

    /// Tests the prefix-length bound at run time, so unverified callers
    /// can establish the validity their calls require.
    pub fn is_wf(&self) -> (r: bool)
        ensures
            r == self.wf(),
    {
        match self.base {
            IpAddr::V4(_) => self.len <= 32,
            IpAddr::V6(_) => self.len <= 128,
        }
    }

    /// `ip` lies inside the prefix: same family and equal leading bits.
    pub open spec fn spec_contains(self, ip: IpAddr) -> bool {
        match (self.base, ip) {
            (IpAddr::V4(b), IpAddr::V4(a)) => self.len == 0 || (b >> (32 - self.len)) == (a >> (
            32 - self.len)),
            (IpAddr::V6(b), IpAddr::V6(a)) => self.len == 0 || (b >> (128 - self.len)) == (a >> (
            128 - self.len)),
            _ => false,
        }
    }

    pub fn contains(&self, ip: IpAddr) -> (r: bool)
        requires
            self.wf(),
        ensures
            r == self.spec_contains(ip),
    {
        match (self.base, ip) {
            (IpAddr::V4(b), IpAddr::V4(a)) => {
                if self.len == 0 {
                    true
                } else {
                    let sh: u32 = 32 - (self.len as u32);
                    (b >> sh) == (a >> sh)
                }
            },
            (IpAddr::V6(b), IpAddr::V6(a)) => {
                if self.len == 0 {
                    true
                } else {
                    let sh: u128 = 128 - (self.len as u128);
                    (b >> sh) == (a >> sh)
                }
            },
            _ => false,
        }
    }
}

} // verus!
