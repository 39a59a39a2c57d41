//! Resource descriptors and resource resolution.
//!
//! A resource is either a DNS name with an optional port (`"host:port"` as
//! bytes) or a CIDR prefix. Resolution picks the destination address a
//! packet may be forwarded to: for DNS resources the first resolved address
//! of the packet's own family, for CIDR resources the packet's destination
//! itself after a containment check. Name resolution is performed by the
//! embedding layer; the resolver takes the resolved addresses as a value.

use vstd::prelude::*;
use crate::errors::Error;
use crate::ip::{same_family, IpAddr, IpPrefix};
use crate::peer::Peer;

verus! {

/// A DNS-named resource: `address` holds `host` or `host:port` bytes.
#[derive(Clone, PartialEq, Eq, Debug)]
pub struct DnsResource {
    pub id: u128,
    pub address: Vec<u8>,
}

/// A CIDR resource: any destination inside the prefix is permitted.
#[derive(Clone, Copy, PartialEq, Eq, Structural, Debug)]
pub struct CidrResource {
    pub id: u128,
    pub address: IpPrefix,
}

#[derive(Clone, PartialEq, Eq, Debug)]
pub enum ResourceDescription {
    Dns(DnsResource),
    Cidr(CidrResource),
}

impl ResourceDescription {
    pub open spec fn wf(&self) -> bool {
        match self {
            ResourceDescription::Dns(_) => true,
            ResourceDescription::Cidr(c) => c.address.wf(),
        }
    }

    /// An explicit deep copy whose value is pinned to the original.
    pub fn duplicate(&self) -> (r: Self)
        ensures
            res_matches(self, &r),
    {
        match self {
            ResourceDescription::Dns(d) => {
                let mut address: Vec<u8> = Vec::new();
                let mut i: usize = 0;
                while i < d.address.len()
                    invariant
                        0 <= i <= d.address@.len(),
                        address@ == d.address@.take(i as int),
                    decreases d.address@.len() - i,
                {
                    address.push(d.address[i]);
                    assert(address@ =~= d.address@.take(i + 1));
                    i = i + 1;
                }
                assert(address@ =~= d.address@);
                ResourceDescription::Dns(DnsResource { id: d.id, address })
            },
            ResourceDescription::Cidr(c) => ResourceDescription::Cidr(*c),
        }
    }
}

/// The two descriptors are the same resource: same variant, same id, and
/// the same address value.
pub open spec fn res_matches(a: &ResourceDescription, b: &ResourceDescription) -> bool {
    match (a, b) {
        (ResourceDescription::Dns(x), ResourceDescription::Dns(y)) => x.id == y.id && x.address@
            == y.address@,
        (ResourceDescription::Cidr(x), ResourceDescription::Cidr(y)) => x == y,
        _ => false,
    }
}

// ---------------------------------------------------------------------------
// "host:port" splitting
// ---------------------------------------------------------------------------

/// The first index of a colon at or after `from`, or the length.
pub open spec fn first_colon(s: Seq<u8>, from: int) -> int
    decreases s.len() - from,
{
    if from < 0 || from >= s.len() {
        s.len() as int
    } else if s[from] == 58 {
        from
    } else {
        first_colon(s, from + 1)
    }
}

/// The host part of a DNS resource address: everything before the first
/// colon.
pub open spec fn spec_dns_host(s: Seq<u8>) -> Seq<u8> {
    s.take(first_colon(s, 0))
}

/// The port segment: the bytes between the first colon and the following
/// colon or the end; `None` when the address has no colon.
pub open spec fn spec_dns_port_seg(s: Seq<u8>) -> Option<Seq<u8>> {
    let c = first_colon(s, 0);
    if c == s.len() {
        None
    } else {
        Some(s.subrange(c + 1, first_colon(s, c + 1)))
    }
}

fn find_colon(s: &Vec<u8>, from: usize) -> (r: usize)
    requires
        from <= s@.len(),
    ensures
        r == first_colon(s@, from as int),
        from <= r <= s@.len(),
{
    let n = s.len();
    let mut i = from;
    while i < n
        invariant
            from <= i <= n == s@.len(),
            first_colon(s@, from as int) == first_colon(s@, i as int),
        decreases n - i,
    {
        if s[i] == 58 {
            return i;
        }
        i = i + 1;
    }
    i
}

/// Copies the host part (everything before the first colon) out of a DNS
/// resource address, for the embedding layer to resolve.
pub fn dns_host(address: &Vec<u8>) -> (r: Vec<u8>)
    ensures
        r@ == spec_dns_host(address@),
{
    let end = find_colon(address, 0);
    let mut out: Vec<u8> = Vec::new();
    let mut i: usize = 0;
    while i < end
        invariant
            0 <= i <= end <= address@.len(),
            out@ == address@.take(i as int),
        decreases end - i,
    {
        out.push(address[i]);
        assert(out@ =~= address@.take(i + 1));
        i = i + 1;
    }
    assert(out@ =~= address@.take(end as int));
    out
}

// ---------------------------------------------------------------------------
// Port parsing
// ---------------------------------------------------------------------------

pub open spec fn is_ascii_digit(b: u8) -> bool {
    48 <= b <= 57
}

pub open spec fn all_digits(s: Seq<u8>) -> bool {
    forall|i: int| 0 <= i < s.len() ==> is_ascii_digit(#[trigger] s[i])
}

/// The number the digit string denotes.
pub open spec fn digits_val(s: Seq<u8>) -> int
    decreases s.len(),
{
    if s.len() == 0 {
        0
    } else {
        digits_val(s.drop_last()) * 10 + (s.last() - 48)
    }
}

/// The digit part of a port string: everything after an optional leading
/// `+`.
pub open spec fn port_body(s: Seq<u8>) -> Seq<u8> {
    if s.len() > 0 && s[0] == 43 {
        s.skip(1)
    } else {
        s
    }
}

/// What parsing a port out of `s` yields: an optional leading `+`, then at
/// least one digit, and a value of at most 65535; anything else is `None`.
pub open spec fn spec_parse_port(s: Seq<u8>) -> Option<u16> {
    if port_body(s).len() > 0 && all_digits(port_body(s)) && digits_val(port_body(s)) <= 0xFFFF {
        Some(digits_val(port_body(s)) as u16)
    } else {
        None
    }
}

proof fn lemma_digits_val_extend(s: Seq<u8>, i: int)
    requires
        0 <= i < s.len(),
    ensures
        digits_val(s.take(i + 1)) == digits_val(s.take(i)) * 10 + (s[i] - 48),
{
    assert(s.take(i + 1).drop_last() =~= s.take(i));
    assert(s.take(i + 1).last() == s[i]);
}

proof fn lemma_digits_val_nonneg(s: Seq<u8>)
    requires
        all_digits(s),
    ensures
        digits_val(s) >= 0,
    decreases s.len(),
{
    if s.len() > 0 {
        assert(all_digits(s.drop_last()));
        lemma_digits_val_nonneg(s.drop_last());
    }
}

proof fn lemma_digits_val_monotone(s: Seq<u8>, i: int)
    requires
        all_digits(s),
        0 <= i <= s.len(),
    ensures
        digits_val(s.take(i)) <= digits_val(s),
    decreases s.len() - i,
{
    if i < s.len() {
        lemma_digits_val_extend(s, i);
        assert(all_digits(s.take(i)));
        lemma_digits_val_nonneg(s.take(i));
        lemma_digits_val_monotone(s, i + 1);
    } else {
        assert(s.take(i) =~= s);
    }
}

/// Parses a port number from `s[start..end]` the way the standard decimal
/// parse does: optional leading `+`, digits only, at most 65535.
fn parse_port_range(s: &Vec<u8>, start: usize, end: usize) -> (r: Option<u16>)
    requires
        start <= end <= s@.len(),
    ensures
        r == spec_parse_port(s@.subrange(start as int, end as int)),
{
    let ghost seg = s@.subrange(start as int, end as int);
    let mut i = start;
    if i < end && s[i] == 43 {
        i = i + 1;
    }
    let ghost bstart = i as int;
    let ghost body = port_body(seg);
    proof {
        assert(body =~= s@.subrange(bstart, end as int));
    }
    if i == end {
        assert(body.len() == 0);
        return None;
    }
    let mut acc: u32 = 0;
    while i < end
        invariant
            start <= bstart <= i <= end <= s@.len(),
            seg == s@.subrange(start as int, end as int),
            body == port_body(seg),
            body == s@.subrange(bstart, end as int),
            body.len() > 0,
            all_digits(body.take(i - bstart)),
            acc == digits_val(body.take(i - bstart)),
            acc <= 0xFFFF,
        decreases end - i,
    {
        let c = s[i];
        if !(48 <= c && c <= 57) {
            assert(body[i - bstart] == c && !is_ascii_digit(c));
            assert(!all_digits(body));
            return None;
        }
        proof {
            lemma_digits_val_extend(body, i - bstart);
            assert(body[i - bstart] == c);
        }
        acc = acc * 10 + ((c - 48) as u32);
        i = i + 1;
        assert(all_digits(body.take(i - bstart)));
        if acc > 0xFFFF {
            assert(spec_parse_port(seg) is None) by {
                if all_digits(body) {
                    lemma_digits_val_monotone(body, i - bstart);
                }
            }
            return None;
        }
    }
    proof {
        assert(body.take(i - bstart) =~= body);
        lemma_digits_val_nonneg(body);
    }
    Some(acc as u16)
}

/// Parses the optional port of a DNS resource address.
pub fn dns_port(address: &Vec<u8>) -> (r: Option<u16>)
    ensures
        r == match spec_dns_port_seg(address@) {
            Some(seg) => spec_parse_port(seg),
            None => None::<u16>,
        },
{
    let c = find_colon(address, 0);
    if c == address.len() {
        return None;
    }
    let pend = find_colon(address, c + 1);
    parse_port_range(address, c + 1, pend)
}

// ---------------------------------------------------------------------------
// Resolution
// ---------------------------------------------------------------------------

/// The first address in `resolved` of the same family as `addr`.
pub open spec fn first_family_match(resolved: Seq<IpAddr>, addr: IpAddr) -> Option<IpAddr>
    decreases resolved.len(),
{
    if resolved.len() == 0 {
        None
    } else if same_family(addr, resolved[0]) {
        Some(resolved[0])
    } else {
        first_family_match(resolved.skip(1), addr)
    }
}

fn find_family_match(resolved: &Vec<IpAddr>, addr: IpAddr) -> (r: Option<IpAddr>)
    ensures
        r == first_family_match(resolved@, addr),
        r is Some ==> same_family(addr, r->0),
{
    let n = resolved.len();
    let mut i: usize = 0;
    proof {
        assert(resolved@.skip(0) =~= resolved@);
    }
    while i < n
        invariant
            0 <= i <= n == resolved@.len(),
            first_family_match(resolved@, addr) == first_family_match(
                resolved@.skip(i as int),
                addr,
            ),
        decreases n - i,
    {
        let cand = resolved[i];
        proof {
            assert(resolved@.skip(i as int)[0] == resolved@[i as int]);
            assert(resolved@.skip(i as int).skip(1) =~= resolved@.skip(i + 1));
        }
        if (addr.is_ipv4() && cand.is_ipv4()) || (addr.is_ipv6() && cand.is_ipv6()) {
            return Some(cand);
        }
        i = i + 1;
    }
    None
}

/// Resolves a DNS resource for a packet whose source is `addr`, given the
/// addresses `resolved` that name resolution returned. Picks the first
/// resolved address of `addr`'s family and records it in the peer's
/// translation cache; when no resolved address matches the family, the
/// resource is invalid and the peer is unchanged.
pub fn resolve_dns(peer: &mut Peer, resource: &DnsResource, addr: IpAddr, resolved: &Vec<
    IpAddr,
>) -> (r: Result<(IpAddr, Option<u16>), Error>)
    requires
        old(peer).wf(),
    ensures
        final(peer).wf(),
        match r {
            Ok(p) => {
                &&& first_family_match(resolved@, addr) == Some(p.0)
                &&& same_family(addr, p.0)
                &&& p.1 == match spec_dns_port_seg(resource.address@) {
                    Some(seg) => spec_parse_port(seg),
                    None => None::<u16>,
                }
                &&& final(peer).spec_translation_updated(*old(peer), resource.id, p.0)
            },
            Err(e) => {
                &&& e is InvalidResource
                &&& first_family_match(resolved@, addr) is None
                &&& *final(peer) == *old(peer)
            },
        },
{
    let Some(dst) = find_family_match(resolved, addr) else {
        return Err(Error::InvalidResource);
    };
    peer.update_translated_resource_address(resource.id, dst);
    let port = dns_port(&resource.address);
    Ok((dst, port))
}

/// Resolves a CIDR resource: the packet's destination must lie inside the
/// prefix (otherwise the client is trying to reach outside what it is
/// allowed, `InvalidSource`) and must be of the source's family (otherwise
/// `InvalidResource`).
pub fn resolve_cidr(resource: &CidrResource, addr: IpAddr, dst: IpAddr) -> (r: Result<
    (IpAddr, Option<u16>),
    Error,
>)
    requires
        resource.address.wf(),
    ensures
        r is Ok <==> resource.address.spec_contains(dst) && same_family(addr, dst),
        match r {
            Ok(p) => {
                &&& resource.address.spec_contains(dst)
                &&& same_family(addr, dst)
                &&& p.0 == dst
                &&& p.1 is None
            },
            Err(e) => e is InvalidSource && !resource.address.spec_contains(dst) || e
                is InvalidResource && resource.address.spec_contains(dst) && !same_family(
                addr,
                dst,
            ),
        },
{
    if resource.address.contains(dst) {
        match crate::ip::get_matching_version_ip(&addr, &dst) {
            Some(d) => Ok((d, None)),
            None => Err(Error::InvalidResource),
        }
    } else {
        Err(Error::InvalidSource)
    }
}

/// Resolves a resource descriptor to the destination address and optional
/// port a packet should be rewritten to, dispatching on the descriptor
/// variant. `resolved` is what name resolution returned for the resource's
/// host (empty for CIDR resources or when resolution failed).
pub fn get_resource_addr_and_port(
    peer: &mut Peer,
    resource: &ResourceDescription,
    addr: &IpAddr,
    dst: &IpAddr,
    resolved: &Vec<IpAddr>,
) -> (r: Result<(IpAddr, Option<u16>), Error>)
    requires
        old(peer).wf(),
        resource.wf(),
    ensures
        final(peer).wf(),
        match resource {
            ResourceDescription::Dns(d) => match r {
                Ok(p) => {
                    &&& first_family_match(resolved@, *addr) == Some(p.0)
                    &&& same_family(*addr, p.0)
                    &&& p.1 == match spec_dns_port_seg(d.address@) {
                        Some(seg) => spec_parse_port(seg),
                        None => None::<u16>,
                    }
                    &&& final(peer).spec_translation_updated(*old(peer), d.id, p.0)
                },
                Err(e) => {
                    &&& e is InvalidResource
                    &&& first_family_match(resolved@, *addr) is None
                    &&& *final(peer) == *old(peer)
                },
            },
            ResourceDescription::Cidr(c) => {
                &&& *final(peer) == *old(peer)
                &&& (r is Ok <==> c.address.spec_contains(*dst) && same_family(*addr, *dst))
                &&& match r {
                    Ok(p) => p.0 == *dst && p.1 is None,
                    Err(e) => e is InvalidSource && !c.address.spec_contains(*dst) || e
                        is InvalidResource && c.address.spec_contains(*dst) && !same_family(
                        *addr,
                        *dst,
                    ),
                }
            },
        },
{
    match resource {
        ResourceDescription::Dns(d) => resolve_dns(peer, d, *addr, resolved),
        ResourceDescription::Cidr(c) => resolve_cidr(c, *addr, *dst),
    }
}

} // verus!
