//! Per-connection peer state.
//!
//! A peer is one authenticated client tunnel: the opaque cryptographic
//! noise state, the allowed-IP set that is the authoritative ingress ACL,
//! the translation cache from resource id to the last resolved destination,
//! the connection identity, and the optional resource with its expiry.

use vstd::prelude::*;
use vstd::pervasive::VecAdditionalExecFns;
use crate::assoc::{has_key, keys_unique, maps_to};
use crate::ids::ConnId;
use crate::ip::IpAddr;
use crate::packet::{packet_dst, spec_packet_dst};
use crate::resource::ResourceDescription;

verus! {

/// The negotiated configuration a peer is built from.
pub struct PeerConfig {
    pub persistent_keepalive: Option<u16>,
    pub public_key: [u8; 32],
    pub ips: Vec<IpAddr>,
    pub preshared_key: [u8; 32],
}

/// One authenticated client tunnel.
pub struct Peer {
    /// The WireGuard noise state, opaque to the library's logic.
    pub tunnel: Box<boringtun::noise::Tunn>,
    pub index: u32,
    pub conn_id: ConnId,
    /// The authoritative ACL: source IPs permitted to arrive over this
    /// tunnel.
    pub allowed_ips: Vec<IpAddr>,
    /// Resource id to last resolved destination.
    pub translated_resource_addresses: Vec<(u128, IpAddr)>,
    pub resource: Option<ResourceDescription>,
    /// Expiry of the associated resource, seconds since the epoch.
    pub expires_at: Option<i64>,
}

impl Peer {
    pub open spec fn wf(&self) -> bool {
        keys_unique(self.translated_resource_addresses@)
    }

    /// `self` is `prev` with `(id, addr)` recorded in the translation cache
    /// and every other part unchanged.
    pub open spec fn spec_translation_updated(self, prev: Peer, id: u128, addr: IpAddr) -> bool {
        &&& maps_to(self.translated_resource_addresses@, id, addr)
        &&& forall|k: u128, v: IpAddr|
            k != id ==> (maps_to(self.translated_resource_addresses@, k, v) <==> maps_to(
                prev.translated_resource_addresses@,
                k,
                v,
            ))
        &&& self.tunnel == prev.tunnel
        &&& self.index == prev.index
        &&& self.conn_id == prev.conn_id
        &&& self.allowed_ips == prev.allowed_ips
        &&& self.resource == prev.resource
        &&& self.expires_at == prev.expires_at
    }

    /// Builds a peer from its negotiated configuration. The allowed-IP set
    /// starts as the configured IPs; the translation cache starts empty.
    pub fn from_config(
        tunnel: Box<boringtun::noise::Tunn>,
        index: u32,
        config: &PeerConfig,
        conn_id: ConnId,
        resource: Option<(ResourceDescription, i64)>,
    ) -> (r: Peer)
        ensures
            r.wf(),
            r.index == index,
            r.conn_id == conn_id,
            r.allowed_ips@ == config.ips@,
            r.translated_resource_addresses@.len() == 0,
            match resource {
                Some(p) => r.resource == Some(p.0) && r.expires_at == Some(p.1),
                None => r.resource is None && r.expires_at is None,
            },
    {
        let (res, exp): (Option<ResourceDescription>, Option<i64>) = match resource {
            Some(p) => (Some(p.0), Some(p.1)),
            None => (None, None),
        };
        let mut ips: Vec<IpAddr> = Vec::new();
        let mut i: usize = 0;
        while i < config.ips.len()
            invariant
                0 <= i <= config.ips@.len(),
                ips@ == config.ips@.take(i as int),
            decreases config.ips@.len() - i,
        {
            ips.push(config.ips[i]);
            assert(ips@ =~= config.ips@.take(i + 1));
            i = i + 1;
        }
        assert(ips@ =~= config.ips@);
        Peer {
            tunnel,
            index,
            conn_id,
            allowed_ips: ips,
            translated_resource_addresses: Vec::new(),
            resource: res,
            expires_at: exp,
        }
    }

    /// The ingress ACL check: is `ip` among the allowed source addresses?
    pub fn is_allowed(&self, ip: IpAddr) -> (r: bool)
        ensures
            r == self.allowed_ips@.contains(ip),
    {
        let n = self.allowed_ips.len();
        let mut i: usize = 0;
        while i < n
            invariant
                0 <= i <= n == self.allowed_ips@.len(),
                forall|j: int| 0 <= j < i ==> self.allowed_ips@[j] != ip,
            decreases n - i,
        {
            if self.allowed_ips[i] == ip {
                return true;
            }
            i = i + 1;
        }
        false
    }

    /// Extends the ACL with one more allowed source IP.
    pub fn add_allowed_ip(&mut self, ip: IpAddr)
        ensures
            final(self).allowed_ips@ == old(self).allowed_ips@.push(ip),
            final(self).tunnel == old(self).tunnel,
            final(self).index == old(self).index,
            final(self).conn_id == old(self).conn_id,
            final(self).translated_resource_addresses == old(self).translated_resource_addresses,
            final(self).resource == old(self).resource,
            final(self).expires_at == old(self).expires_at,
    {
        self.allowed_ips.push(ip);
    }

    /// Records the destination a resource was last resolved to; a later
    /// record for the same resource overwrites the earlier one.
    pub fn update_translated_resource_address(&mut self, id: u128, addr: IpAddr)
        requires
            old(self).wf(),
        ensures
            final(self).wf(),
            final(self).spec_translation_updated(*old(self), id, addr),
    {
        let n = self.translated_resource_addresses.len();
        let mut i: usize = 0;
        while i < n
            invariant
                *self == *old(self),
                old(self).wf(),
                0 <= i <= n == self.translated_resource_addresses@.len(),
                forall|j: int|
                    0 <= j < i ==> (#[trigger] self.translated_resource_addresses@[j]).0 != id,
        decreases n - i,
        {
            if self.translated_resource_addresses[i].0 == id {
                self.translated_resource_addresses.set(i, (id, addr));
                proof {
                    let s = self.translated_resource_addresses@;
                    let prev = old(self).translated_resource_addresses@;
                    assert(s[i as int] == (id, addr));
                    assert(forall|j: int| 0 <= j < s.len() ==> (#[trigger] s[j]).0 == prev[j].0);
                    assert forall|a: int, b: int| 0 <= a < b < s.len() implies (#[trigger] s[a]).0
                        != (#[trigger] s[b]).0 by {
                        assert(prev[a].0 != prev[b].0);
                    }
                    assert forall|k: u128, v: IpAddr|
                        k != id implies (maps_to(s, k, v) <==> maps_to(prev, k, v)) by {
                        assert(forall|j: int| 0 <= j < s.len() && j != i ==> s[j] == prev[j]);
                        if maps_to(s, k, v) {
                            let j = choose|j: int| 0 <= j < s.len() && #[trigger] s[j] == (k, v);
                            assert(prev[j] == (k, v));
                        }
                        if maps_to(prev, k, v) {
                            let j = choose|j: int|
                                0 <= j < prev.len() && #[trigger] prev[j] == (k, v);
                            assert(s[j] == (k, v));
                        }
                    }
                }
                return ;
            }
            i = i + 1;
        }
        self.translated_resource_addresses.push((id, addr));
        proof {
            let s = self.translated_resource_addresses@;
            let prev = old(self).translated_resource_addresses@;
            assert(s[s.len() - 1] == (id, addr));
            assert forall|k: u128, v: IpAddr|
                k != id implies (maps_to(s, k, v) <==> maps_to(prev, k, v)) by {
                if maps_to(s, k, v) {
                    let j = choose|j: int| 0 <= j < s.len() && #[trigger] s[j] == (k, v);
                    assert(prev[j] == (k, v));
                }
                if maps_to(prev, k, v) {
                    let j = choose|j: int| 0 <= j < prev.len() && #[trigger] prev[j] == (k, v);
                    assert(s[j] == (k, v));
                }
            }
        }
    }

    /// The cached destination for a resource id, if any.
    pub fn translated_resource_address(&self, id: u128) -> (r: Option<IpAddr>)
        requires
            self.wf(),
        ensures
            match r {
                Some(v) => maps_to(self.translated_resource_addresses@, id, v),
                None => !has_key(self.translated_resource_addresses@, id),
            },
    {
        let n = self.translated_resource_addresses.len();
        let mut i: usize = 0;
        while i < n
            invariant
                0 <= i <= n == self.translated_resource_addresses@.len(),
                forall|j: int|
                    0 <= j < i ==> (#[trigger] self.translated_resource_addresses@[j]).0 != id,
            decreases n - i,
        {
            if self.translated_resource_addresses[i].0 == id {
                return Some(self.translated_resource_addresses[i].1);
            }
            i = i + 1;
        }
        None
    }

    /// The packet's destination paired with this peer's resource. A peer
    /// without a resource trusts its packets (the tunnel belongs to a
    /// gateway); a malformed packet yields `None`.
    pub fn get_packet_resource(&self, packet: &Vec<u8>) -> (r: Option<(IpAddr, &ResourceDescription)>)
        ensures
            match r {
                Some(p) => self.resource == Some(*p.1) && spec_packet_dst(packet@) == Some(p.0),
                None => self.resource is None || spec_packet_dst(packet@) is None,
            },
    {
        match &self.resource {
            Some(res) => match packet_dst(packet) {
                Some(dst) => Some((dst, res)),
                None => None,
            },
            None => None,
        }
    }
}

} // verus!
