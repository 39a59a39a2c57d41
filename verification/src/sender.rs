//! The ingress packet path: ACL check, resolution, rewrite, device
//! dispatch.
//!
//! For each packet received from a peer's data channel: a packet whose
//! source is not in the peer's allowed-IP set is dropped; a packet of a
//! trusted peer (one without a resource) passes through unchanged; a
//! resource packet has its destination resolved, is rewritten, and is then
//! written on the device path of its source's address family. The device
//! write itself is performed by the embedding layer according to the
//! returned outcome.

use vstd::prelude::*;
use crate::errors::Error;
use crate::ip::{same_family, IpAddr};
use crate::packet::{spec_packet_dst, spec_update_packet, update_packet};
use crate::peer::Peer;
use crate::resource::{first_family_match, get_resource_addr_and_port, ResourceDescription};

verus! {

/// What the packet path decided.
#[derive(Clone, PartialEq, Eq, Debug)]
pub enum PacketOutcome {
    /// Write the buffer to the IPv4 device path.
    WriteV4,
    /// Write the buffer to the IPv6 device path.
    WriteV6,
    /// The source IP is not allowed: drop, nothing written.
    DroppedUnallowed,
    /// Resolution failed: report the error, drop the packet.
    DroppedError(Error),
}

/// The device path a packet takes, by the address family of the peer's
/// source address.
pub open spec fn spec_write_path(addr: IpAddr) -> PacketOutcome {
    match addr {
        IpAddr::V4(_) => PacketOutcome::WriteV4,
        IpAddr::V6(_) => PacketOutcome::WriteV6,
    }
}

/// Dispatches a packet to the v4 or v6 device write path.
pub fn send_packet(addr: IpAddr) -> (r: PacketOutcome)
    ensures
        r == spec_write_path(addr),
{
    match addr {
        IpAddr::V4(_) => PacketOutcome::WriteV4,
        IpAddr::V6(_) => PacketOutcome::WriteV6,
    }
}

/// The destination the packet resolves to, if resolution succeeds: the
/// first same-family resolved address for a DNS resource, the packet's own
/// destination for a CIDR resource containing it.
pub open spec fn spec_resolved_dst(
    peer: Peer,
    pkt: Seq<u8>,
    addr: IpAddr,
    resolved: Seq<IpAddr>,
) -> Option<IpAddr> {
    match (peer.resource, spec_packet_dst(pkt)) {
        (Some(res), Some(dst)) => match res {
            ResourceDescription::Dns(_) => first_family_match(resolved, addr),
            ResourceDescription::Cidr(c) => if c.address.spec_contains(dst) && same_family(
                addr,
                dst,
            ) {
                Some(dst)
            } else {
                None
            },
        },
        _ => None,
    }
}

/// The packet's destination lies outside the peer's CIDR resource: the
/// client is trying to reach beyond what it is allowed (a tunnel-hijack
/// attempt, dropped with `InvalidSource`).
pub open spec fn spec_cidr_hijack(peer: Peer, pkt: Seq<u8>) -> bool {
    match (peer.resource, spec_packet_dst(pkt)) {
        (Some(ResourceDescription::Cidr(c)), Some(dst)) => !c.address.spec_contains(dst),
        _ => false,
    }
}

/// The peer trusts this packet as-is: it has no resource, or the buffer
/// does not parse (and is then left to the device path untouched, as the
/// original destination stands).
pub open spec fn spec_trusted_passthrough(peer: Peer, pkt: Seq<u8>) -> bool {
    peer.resource is None || spec_packet_dst(pkt) is None
}

/// Resolves and rewrites a packet already past the ACL. A peer without a
/// resource forwards the packet unchanged; otherwise the resource is
/// resolved against the packet's destination, the packet is rewritten to
/// the resolved address, and a resolution error drops the packet
/// unchanged.
pub fn packet_allowed(
    peer: &mut Peer,
    addr: IpAddr,
    packet: &mut Vec<u8>,
    resolved: &Vec<IpAddr>,
) -> (r: PacketOutcome)
    requires
        old(peer).wf(),
        old(peer).resource matches Some(ResourceDescription::Cidr(c)) ==> c.address.wf(),
    ensures
        final(peer).wf(),
        !(r is DroppedUnallowed),
        match r {
            PacketOutcome::WriteV4 => addr is V4,
            PacketOutcome::WriteV6 => addr is V6,
            PacketOutcome::DroppedUnallowed => false,
            PacketOutcome::DroppedError(e) => {
                &&& final(packet)@ == old(packet)@
                &&& *final(peer) == *old(peer)
                &&& (e is InvalidResource || e is InvalidSource)
                &&& (e is InvalidSource <==> spec_cidr_hijack(*old(peer), old(packet)@))
                &&& spec_resolved_dst(*old(peer), old(packet)@, addr, resolved@) is None
                &&& !spec_trusted_passthrough(*old(peer), old(packet)@)
            },
        },
        (r is WriteV4 || r is WriteV6) ==> match old(peer).resource {
            Some(ResourceDescription::Dns(d)) => match spec_resolved_dst(
                *old(peer),
                old(packet)@,
                addr,
                resolved@,
            ) {
                Some(dd) => final(peer).spec_translation_updated(*old(peer), d.id, dd),
                None => *final(peer) == *old(peer),
            },
            _ => *final(peer) == *old(peer),
        },
        (r is WriteV4 || r is WriteV6) ==> if spec_trusted_passthrough(
            *old(peer),
            old(packet)@,
        ) {
            final(packet)@ == old(packet)@ && *final(peer) == *old(peer)
        } else {
            match spec_resolved_dst(*old(peer), old(packet)@, addr, resolved@) {
                Some(d) => final(packet)@ == spec_update_packet(old(packet)@, d),
                None => false,
            }
        },
{
    let res: Option<(IpAddr, ResourceDescription)> = match peer.get_packet_resource(packet) {
        Some(pr) => Some((pr.0, pr.1.duplicate())),
        None => None,
    };
    match res {
        None => send_packet(addr),
        Some((dst, resource)) => {
            match get_resource_addr_and_port(peer, &resource, &addr, &dst, resolved) {
                Ok(rp) => {
                    update_packet(packet, rp.0);
                    send_packet(addr)
                },
                Err(e) => PacketOutcome::DroppedError(e),
            }
        },
    }
}

/// The ingress entry point for one packet from a peer's data channel: the
/// ACL gate, then resolution and rewrite. A packet is written to the
/// device only when its source IP is in the peer's allowed-IP set.
pub fn send_to_resource(
    peer: &mut Peer,
    addr: IpAddr,
    packet: &mut Vec<u8>,
    resolved: &Vec<IpAddr>,
) -> (r: PacketOutcome)
    requires
        old(peer).wf(),
        old(peer).resource matches Some(ResourceDescription::Cidr(c)) ==> c.address.wf(),
    ensures
        final(peer).wf(),
        (r is WriteV4 || r is WriteV6) ==> old(peer).allowed_ips@.contains(addr),
        r is DroppedUnallowed <==> !old(peer).allowed_ips@.contains(addr),
        r is DroppedUnallowed ==> final(packet)@ == old(packet)@ && *final(peer) == *old(peer),
        match r {
            PacketOutcome::WriteV4 => addr is V4,
            PacketOutcome::WriteV6 => addr is V6,
            PacketOutcome::DroppedUnallowed => true,
            PacketOutcome::DroppedError(e) => {
                &&& final(packet)@ == old(packet)@
                &&& *final(peer) == *old(peer)
                &&& (e is InvalidResource || e is InvalidSource)
                &&& (e is InvalidSource <==> spec_cidr_hijack(*old(peer), old(packet)@))
                &&& spec_resolved_dst(*old(peer), old(packet)@, addr, resolved@) is None
            },
        },
        (r is WriteV4 || r is WriteV6) ==> match old(peer).resource {
            Some(ResourceDescription::Dns(d)) => match spec_resolved_dst(
                *old(peer),
                old(packet)@,
                addr,
                resolved@,
            ) {
                Some(dd) => final(peer).spec_translation_updated(*old(peer), d.id, dd),
                None => *final(peer) == *old(peer),
            },
            _ => *final(peer) == *old(peer),
        },
        (r is WriteV4 || r is WriteV6) ==> if spec_trusted_passthrough(
            *old(peer),
            old(packet)@,
        ) {
            final(packet)@ == old(packet)@ && *final(peer) == *old(peer)
        } else {
            match spec_resolved_dst(*old(peer), old(packet)@, addr, resolved@) {
                Some(d) => final(packet)@ == spec_update_packet(old(packet)@, d),
                None => false,
            }
        },
{
    if peer.is_allowed(addr) {
        packet_allowed(peer, addr, packet, resolved)
    } else {
        PacketOutcome::DroppedUnallowed
    }
}

} // verus!
