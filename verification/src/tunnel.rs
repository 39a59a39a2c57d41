//! The tunnel engine: routing table and connection bookkeeping.
//!
//! The tunnel maps client source IPs to peer indices, holds the
//! orchestrator's per-connection state (peer-connection handles, pending
//! allowed-IPs for gateways awaiting their channel, the outbound
//! ICE-candidate queues), and performs the routing-table mutation on
//! channel open and teardown. The peer-connection handle `P`, the queue
//! handle `Q` and the device handle `D` are the embedding transports; the
//! tunnel only stores and hands them out, so their types are parameters.

use vstd::prelude::*;
use vstd::pervasive::VecAdditionalExecFns;
use crate::assoc::{
    has_key, key_keep, keys_unique, lemma_filter_all_kept, lemma_filter_idempotent,
    lemma_filter_keys_unique, lemma_remove_is_filter, maps_to, not_value, snd_ne, without_key,
    without_snd, without_value,
};
use crate::errors::Error;
use crate::ids::ConnId;
use crate::ip::IpAddr;
use crate::peer::{Peer, PeerConfig};
use crate::relay::Relay;
use crate::resource::ResourceDescription;

verus! {

/// A portal order to open a fresh connection for a client.
#[derive(Clone, PartialEq, Eq, Debug)]
pub struct RequestConnection {
    pub client_id: u128,
    pub relays: Vec<Relay>,
    pub client_public_key: [u8; 32],
    pub client_preshared_key: [u8; 32],
    pub client_ips: Vec<IpAddr>,
}

/// A portal notification that an existing connection is reused.
#[derive(Clone, Copy, PartialEq, Eq, Structural, Debug)]
pub struct ReuseConnection {
    pub client_id: u128,
}

/// What the portal asks of the orchestrator.
#[derive(Clone, PartialEq, Eq, Debug)]
pub enum Request {
    NewConnection(RequestConnection),
    ReuseConnection(ReuseConnection),
}

/// Peer-connection states as the orchestrator's observer sees them.
#[derive(Clone, Copy, PartialEq, Eq, Structural, Debug)]
pub enum ConnectionState {
    New,
    Connecting,
    Connected,
    Disconnected,
    Failed,
    Closed,
}

/// The state-change observer's decision: exactly a transition to `Failed`
/// tears the peer down; every other state change is observed and left
/// alone.
pub fn handle_connection_state_update(state: ConnectionState) -> (stop: bool)
    ensures
        stop == (state is Failed),
{
    matches!(state, ConnectionState::Failed)
}

/// What the ICE-candidate consumer took off its queue.
pub enum IceConsumerEvent<T> {
    /// A gathered candidate to relay to the portal.
    Candidate(T),
    /// The null end-of-gathering marker.
    NullCandidate,
    /// Relaying the previous candidate failed.
    SignalingError,
}

/// What the consumer does next.
#[derive(Clone, Copy, PartialEq, Eq, Structural, Debug)]
pub enum IceConsumerAction {
    /// Send the candidate through the control-plane signaler.
    Forward,
    /// Skip the null marker and keep consuming.
    Skip,
    /// Report the failure via the error callback and keep consuming: a
    /// signalling error never ends the loop (only the queue closing does).
    ReportAndContinue,
}

/// One step of the ICE-candidate consumer: forward real candidates, skip
/// null ones, and report-and-continue on signalling failures.
pub fn ice_consumer_step<T>(ev: &IceConsumerEvent<T>) -> (r: IceConsumerAction)
    ensures
        r == (match ev {
            IceConsumerEvent::Candidate(_) => IceConsumerAction::Forward,
            IceConsumerEvent::NullCandidate => IceConsumerAction::Skip,
            IceConsumerEvent::SignalingError => IceConsumerAction::ReportAndContinue,
        }),
{
    match ev {
        IceConsumerEvent::Candidate(_) => IceConsumerAction::Forward,
        IceConsumerEvent::NullCandidate => IceConsumerAction::Skip,
        IceConsumerEvent::SignalingError => IceConsumerAction::ReportAndContinue,
    }
}

// ---------------------------------------------------------------------------
// Association-list operations
// ---------------------------------------------------------------------------

fn conn_pos<V>(m: &Vec<(ConnId, V)>, id: ConnId) -> (r: Option<usize>)
    ensures
        match r {
            Some(p) => p < m@.len() && m@[p as int].0 == id,
            None => !has_key(m@, id),
        },
{
    let n = m.len();
    let mut i: usize = 0;
    while i < n
        invariant
            0 <= i <= n == m@.len(),
            forall|j: int| 0 <= j < i ==> (#[trigger] m@[j]).0 != id,
        decreases n - i,
    {
        if m[i].0 == id {
            return Some(i);
        }
        i = i + 1;
    }
    None
}

fn conn_insert<V>(m: &mut Vec<(ConnId, V)>, id: ConnId, v: V)
    requires
        keys_unique(old(m)@),
    ensures
        keys_unique(final(m)@),
        maps_to(final(m)@, id, v),
        has_key(final(m)@, id),
        forall|k: ConnId, w: V|
            k != id ==> (maps_to(final(m)@, k, w) <==> maps_to(old(m)@, k, w)),
{
    let ghost prev = m@;
    match conn_pos(m, id) {
        Some(p) => {
            m.set(p, (id, v));
            proof {
                let s = m@;
                assert(s[p as int] == (id, v));
                assert(forall|j: int| 0 <= j < s.len() ==> (#[trigger] s[j]).0 == prev[j].0);
                assert forall|a: int, b: int|
                    0 <= a < b < s.len() implies (#[trigger] s[a]).0 != (#[trigger] s[b]).0 by {
                    assert(prev[a].0 != prev[b].0);
                }
                assert forall|k: ConnId, w: V|
                    k != id implies (maps_to(s, k, w) <==> maps_to(prev, k, w)) by {
                    if maps_to(s, k, w) {
                        let j = choose|j: int| 0 <= j < s.len() && #[trigger] s[j] == (k, w);
                        assert(prev[j] == (k, w));
                    }
                    if maps_to(prev, k, w) {
                        let j = choose|j: int| 0 <= j < prev.len() && #[trigger] prev[j] == (k, w);
                        assert(s[j] == (k, w));
                    }
                }
            }
        },
        None => {
            m.push((id, v));
            proof {
                let s = m@;
                assert(s[s.len() - 1] == (id, v));
                assert forall|a: int, b: int|
                    0 <= a < b < s.len() implies (#[trigger] s[a]).0 != (#[trigger] s[b]).0 by {
                    if b < s.len() - 1 {
                        assert(prev[a].0 != prev[b].0);
                    } else {
                        assert(s[a] == prev[a]);
                    }
                }
                assert forall|k: ConnId, w: V|
                    k != id implies (maps_to(s, k, w) <==> maps_to(prev, k, w)) by {
                    if maps_to(s, k, w) {
                        let j = choose|j: int| 0 <= j < s.len() && #[trigger] s[j] == (k, w);
                        assert(prev[j] == (k, w));
                    }
                    if maps_to(prev, k, w) {
                        let j = choose|j: int| 0 <= j < prev.len() && #[trigger] prev[j] == (k, w);
                        assert(s[j] == (k, w));
                    }
                }
            }
        },
    }
}

fn conn_remove<V>(m: &mut Vec<(ConnId, V)>, id: ConnId) -> (r: Option<V>)
    requires
        keys_unique(old(m)@),
    ensures
        keys_unique(final(m)@),
        final(m)@ == without_key(old(m)@, id),
        !has_key(final(m)@, id),
        match r {
            Some(v) => maps_to(old(m)@, id, v),
            None => !has_key(old(m)@, id),
        },
        r is Some <==> has_key(old(m)@, id),
{
    let ghost prev = m@;
    let ghost keep = key_keep::<ConnId, V>(id);
    match conn_pos(m, id) {
        Some(p) => {
            let pair = m.remove(p);
            proof {
                assert forall|i: int| 0 <= i < prev.len() && i != p implies keep(#[trigger] prev[i]) by {
                    if i < p {
                        assert(prev[i].0 != prev[p as int].0);
                    } else {
                        assert(prev[p as int].0 != prev[i].0);
                    }
                }
                lemma_remove_is_filter(prev, p as int, keep);
                lemma_filter_keys_unique(prev, keep);
                assert forall|i: int| 0 <= i < m@.len() implies (#[trigger] m@[i]).0 != id by {
                    prev.lemma_filter_pred(keep, i);
                }
                assert(pair == prev[p as int]);
                assert(maps_to(prev, id, pair.1));
            }
            Some(pair.1)
        },
        None => {
            proof {
                assert forall|i: int| 0 <= i < prev.len() implies keep(#[trigger] prev[i]) by {
                }
                lemma_filter_all_kept(prev, keep);
            }
            None
        },
    }
}

fn ip_pos(m: &Vec<(IpAddr, u32)>, ip: IpAddr) -> (r: Option<usize>)
    ensures
        match r {
            Some(p) => p < m@.len() && m@[p as int].0 == ip,
            None => !has_key(m@, ip),
        },
{
    let n = m.len();
    let mut i: usize = 0;
    while i < n
        invariant
            0 <= i <= n == m@.len(),
            forall|j: int| 0 <= j < i ==> (#[trigger] m@[j]).0 != ip,
        decreases n - i,
    {
        if m[i].0 == ip {
            return Some(i);
        }
        i = i + 1;
    }
    None
}

fn ip_insert(m: &mut Vec<(IpAddr, u32)>, ip: IpAddr, index: u32)
    requires
        keys_unique(old(m)@),
    ensures
        keys_unique(final(m)@),
        maps_to(final(m)@, ip, index),
        forall|k: IpAddr, w: u32|
            k != ip ==> (maps_to(final(m)@, k, w) <==> maps_to(old(m)@, k, w)),
{
    let ghost prev = m@;
    match ip_pos(m, ip) {
        Some(p) => {
            m.set(p, (ip, index));
            proof {
                let s = m@;
                assert(s[p as int] == (ip, index));
                assert(forall|j: int| 0 <= j < s.len() ==> (#[trigger] s[j]).0 == prev[j].0);
                assert forall|a: int, b: int|
                    0 <= a < b < s.len() implies (#[trigger] s[a]).0 != (#[trigger] s[b]).0 by {
                    assert(prev[a].0 != prev[b].0);
                }
                assert forall|k: IpAddr, w: u32|
                    k != ip implies (maps_to(s, k, w) <==> maps_to(prev, k, w)) by {
                    if maps_to(s, k, w) {
                        let j = choose|j: int| 0 <= j < s.len() && #[trigger] s[j] == (k, w);
                        assert(prev[j] == (k, w));
                    }
                    if maps_to(prev, k, w) {
                        let j = choose|j: int| 0 <= j < prev.len() && #[trigger] prev[j] == (k, w);
                        assert(s[j] == (k, w));
                    }
                }
            }
        },
        None => {
            m.push((ip, index));
            proof {
                let s = m@;
                assert(s[s.len() - 1] == (ip, index));
                assert forall|a: int, b: int|
                    0 <= a < b < s.len() implies (#[trigger] s[a]).0 != (#[trigger] s[b]).0 by {
                    if b < s.len() - 1 {
                        assert(prev[a].0 != prev[b].0);
                    } else {
                        assert(s[a] == prev[a]);
                    }
                }
                assert forall|k: IpAddr, w: u32|
                    k != ip implies (maps_to(s, k, w) <==> maps_to(prev, k, w)) by {
                    if maps_to(s, k, w) {
                        let j = choose|j: int| 0 <= j < s.len() && #[trigger] s[j] == (k, w);
                        assert(prev[j] == (k, w));
                    }
                    if maps_to(prev, k, w) {
                        let j = choose|j: int| 0 <= j < prev.len() && #[trigger] prev[j] == (k, w);
                        assert(s[j] == (k, w));
                    }
                }
            }
        },
    }
}

// ---------------------------------------------------------------------------
// The tunnel
// ---------------------------------------------------------------------------

/// Orchestrator state. `P` is the peer-connection handle, `Q` the
/// ICE-candidate queue handle, `D` the device handle.
pub struct Tunnel<P, Q, D> {
    /// Route table: source IP to peer index. Many IPs may map to one peer.
    pub peers_by_ip: Vec<(IpAddr, u32)>,
    /// Open peer connections by connection id.
    pub peer_connections: Vec<(ConnId, P)>,
    /// Allowed IPs waiting to be grafted onto a gateway peer when its
    /// channel opens; keyed by the gateway's connection id.
    pub gateway_awaiting_connection: Vec<(ConnId, Vec<IpAddr>)>,
    /// Connections for which setup is still pending.
    pub awaiting_connection: Vec<ConnId>,
    /// Registered outbound ICE-candidate queues, consumed once.
    pub ice_candidate_queue: Vec<(ConnId, Q)>,
    /// The device to write decrypted packets to, when one is bound.
    pub device: Option<D>,
}

impl<P, Q, D> Tunnel<P, Q, D> {
    pub open spec fn wf(&self) -> bool {
        &&& keys_unique(self.peers_by_ip@)
        &&& keys_unique(self.peer_connections@)
        &&& keys_unique(self.gateway_awaiting_connection@)
        &&& keys_unique(self.ice_candidate_queue@)
    }

    pub fn new() -> (r: Self)
        ensures
            r.wf(),
            r.peers_by_ip@.len() == 0,
            r.peer_connections@.len() == 0,
            r.gateway_awaiting_connection@.len() == 0,
            r.awaiting_connection@.len() == 0,
            r.ice_candidate_queue@.len() == 0,
            r.device is None,
    {
        Tunnel {
            peers_by_ip: Vec::new(),
            peer_connections: Vec::new(),
            gateway_awaiting_connection: Vec::new(),
            awaiting_connection: Vec::new(),
            ice_candidate_queue: Vec::new(),
            device: None,
        }
    }

    /// Binds (or unbinds) the packet device.
    pub fn set_device(&mut self, device: Option<D>)
        ensures
            final(self).device == device,
            final(self).peers_by_ip == old(self).peers_by_ip,
            final(self).peer_connections == old(self).peer_connections,
            final(self).gateway_awaiting_connection == old(self).gateway_awaiting_connection,
            final(self).awaiting_connection == old(self).awaiting_connection,
            final(self).ice_candidate_queue == old(self).ice_candidate_queue,
    {
        self.device = device;
    }

    /// Registers the peer connection created for `id`; a second
    /// registration overwrites the first.
    pub fn insert_peer_connection(&mut self, id: ConnId, conn: P)
        requires
            old(self).wf(),
        ensures
            final(self).wf(),
            maps_to(final(self).peer_connections@, id, conn),
            forall|k: ConnId, w: P|
                k != id ==> (maps_to(final(self).peer_connections@, k, w) <==> maps_to(
                    old(self).peer_connections@,
                    k,
                    w,
                )),
            final(self).peers_by_ip == old(self).peers_by_ip,
            final(self).gateway_awaiting_connection == old(self).gateway_awaiting_connection,
            final(self).awaiting_connection == old(self).awaiting_connection,
            final(self).ice_candidate_queue == old(self).ice_candidate_queue,
            final(self).device == old(self).device,
    {
        conn_insert(&mut self.peer_connections, id, conn);
    }

    /// Registers the bounded ICE-candidate queue allocated for `id`.
    pub fn register_ice_queue(&mut self, id: ConnId, queue: Q)
        requires
            old(self).wf(),
        ensures
            final(self).wf(),
            maps_to(final(self).ice_candidate_queue@, id, queue),
            forall|k: ConnId, w: Q|
                k != id ==> (maps_to(final(self).ice_candidate_queue@, k, w) <==> maps_to(
                    old(self).ice_candidate_queue@,
                    k,
                    w,
                )),
            final(self).peers_by_ip == old(self).peers_by_ip,
            final(self).peer_connections == old(self).peer_connections,
            final(self).gateway_awaiting_connection == old(self).gateway_awaiting_connection,
            final(self).awaiting_connection == old(self).awaiting_connection,
            final(self).device == old(self).device,
    {
        conn_insert(&mut self.ice_candidate_queue, id, queue);
    }

    /// Takes the registered ICE-candidate queue for `id` so a consumer can
    /// be started; taking it twice is a bug and yields
    /// `ControlProtocolError`.
    pub fn start_ice_candidate_handler(&mut self, id: ConnId) -> (r: Result<Q, Error>)
        requires
            old(self).wf(),
        ensures
            final(self).wf(),
            r is Ok <==> has_key(old(self).ice_candidate_queue@, id),
            match r {
                Ok(q) => {
                    &&& maps_to(old(self).ice_candidate_queue@, id, q)
                    &&& final(self).ice_candidate_queue@ == without_key(
                        old(self).ice_candidate_queue@,
                        id,
                    )
                },
                Err(e) => e is ControlProtocolError && final(self).ice_candidate_queue@ == old(
                    self,
                ).ice_candidate_queue@,
            },
            final(self).peers_by_ip == old(self).peers_by_ip,
            final(self).peer_connections == old(self).peer_connections,
            final(self).gateway_awaiting_connection == old(self).gateway_awaiting_connection,
            final(self).awaiting_connection == old(self).awaiting_connection,
            final(self).device == old(self).device,
    {
        match conn_remove(&mut self.ice_candidate_queue, id) {
            Some(q) => Ok(q),
            None => {
                proof {
                    lemma_filter_all_kept(old(self).ice_candidate_queue@, key_keep::<ConnId, Q>(id));
                }
                Err(Error::ControlProtocolError)
            },
        }
    }

    /// The peer connection registered for `id`, if any.
    pub fn get_peer_connection(&self, id: ConnId) -> (r: Option<&P>)
        ensures
            match r {
                Some(p) => maps_to(self.peer_connections@, id, *p),
                None => !has_key(self.peer_connections@, id),
            },
    {
        match conn_pos(&self.peer_connections, id) {
            Some(p) => Some(&self.peer_connections[p].1),
            None => None,
        }
    }

    /// Looks up the peer connection a remote ICE candidate is for; the
    /// candidate is then forwarded to it by the embedding layer. An unknown
    /// id is a control-protocol error.
    pub fn add_ice_candidate(&self, id: ConnId) -> (r: Result<&P, Error>)
        ensures
            r is Ok <==> has_key(self.peer_connections@, id),
            match r {
                Ok(p) => maps_to(self.peer_connections@, id, *p),
                Err(e) => e is ControlProtocolError,
            },
    {
        match self.get_peer_connection(id) {
            Some(p) => Ok(p),
            None => Err(Error::ControlProtocolError),
        }
    }

    /// Clean up a connection to a resource: forgets the pending-setup entry
    /// and the peer connection of `id`. Safe on unknown ids.
    pub fn cleanup_connection(&mut self, id: ConnId)
        requires
            old(self).wf(),
        ensures
            final(self).wf(),
            final(self).awaiting_connection@ == without_value(old(self).awaiting_connection@, id),
            final(self).peer_connections@ == without_key(old(self).peer_connections@, id),
            final(self).peers_by_ip == old(self).peers_by_ip,
            final(self).gateway_awaiting_connection == old(self).gateway_awaiting_connection,
            final(self).ice_candidate_queue == old(self).ice_candidate_queue,
            final(self).device == old(self).device,
    {
        let n = self.awaiting_connection.len();
        let mut out: Vec<ConnId> = Vec::new();
        let mut i: usize = 0;
        while i < n
            invariant
                *self == *old(self),
                0 <= i <= n == self.awaiting_connection@.len(),
                out@ == without_value(self.awaiting_connection@.take(i as int), id),
            decreases n - i,
        {
            let c = self.awaiting_connection[i];
            proof {
                reveal(Seq::filter);
                assert(self.awaiting_connection@.take(i + 1).drop_last() =~= self
                    .awaiting_connection@.take(i as int));
                assert(self.awaiting_connection@.take(i + 1).last() == c);
            }
            if c != id {
                out.push(c);
            }
            i = i + 1;
        }
        proof {
            assert(self.awaiting_connection@.take(n as int) =~= self.awaiting_connection@);
        }
        self.awaiting_connection = out;
        let _ = conn_remove(&mut self.peer_connections, id);
    }

    /// `cleanup_connection` is idempotent and safe on unknown ids: cleaning
    /// twice leaves what one cleaning leaves, and cleaning an id that is in
    /// neither map changes nothing.
    pub proof fn lemma_cleanup_connection_idempotent(
        aw: Seq<ConnId>,
        pc: Seq<(ConnId, P)>,
        id: ConnId,
    )
        ensures
            without_value(without_value(aw, id), id) == without_value(aw, id),
            without_key(without_key(pc, id), id) == without_key(pc, id),
            !aw.contains(id) ==> without_value(aw, id) == aw,
            !has_key(pc, id) ==> without_key(pc, id) == pc,
    {
        lemma_filter_idempotent(aw, not_value(id));
        lemma_filter_idempotent(pc, key_keep::<ConnId, P>(id));
        if !aw.contains(id) {
            assert forall|i: int| 0 <= i < aw.len() implies not_value(id)(#[trigger] aw[i]) by {
                assert(aw[i] != id);
            }
            lemma_filter_all_kept(aw, not_value(id));
        }
        if !has_key(pc, id) {
            assert forall|i: int|
                0 <= i < pc.len() implies key_keep::<ConnId, P>(id)(#[trigger] pc[i]) by {
            }
            lemma_filter_all_kept(pc, key_keep::<ConnId, P>(id));
        }
    }

    /// With distinct keys the routing state pins one peer connection per
    /// id, so repeated candidate additions for one id meet the same
    /// connection.
    pub proof fn lemma_add_ice_candidate_deterministic(&self, id: ConnId, p1: P, p2: P)
        requires
            self.wf(),
            maps_to(self.peer_connections@, id, p1),
            maps_to(self.peer_connections@, id, p2),
        ensures
            p1 == p2,
    {
        crate::assoc::lemma_maps_to_unique(self.peer_connections@, id, p1, p2);
    }

    /// Marks `id` as awaiting connection setup.
    pub fn add_awaiting_connection(&mut self, id: ConnId)
        ensures
            final(self).awaiting_connection@ == if old(self).awaiting_connection@.contains(id) {
                old(self).awaiting_connection@
            } else {
                old(self).awaiting_connection@.push(id)
            },
            final(self).peers_by_ip == old(self).peers_by_ip,
            final(self).peer_connections == old(self).peer_connections,
            final(self).gateway_awaiting_connection == old(self).gateway_awaiting_connection,
            final(self).ice_candidate_queue == old(self).ice_candidate_queue,
            final(self).device == old(self).device,
    {
        let n = self.awaiting_connection.len();
        let mut i: usize = 0;
        while i < n
            invariant
                *self == *old(self),
                0 <= i <= n == self.awaiting_connection@.len(),
                forall|j: int| 0 <= j < i ==> self.awaiting_connection@[j] != id,
            decreases n - i,
        {
            if self.awaiting_connection[i] == id {
                return ;
            }
            i = i + 1;
        }
        self.awaiting_connection.push(id);
    }

    /// Stores the allowed IPs to graft onto the peer of `gateway_id` when
    /// its channel opens; replaces any pending set for that gateway.
    pub fn add_gateway_awaiting_connection(&mut self, gateway_id: u128, ips: Vec<IpAddr>)
        requires
            old(self).wf(),
        ensures
            final(self).wf(),
            maps_to(
                final(self).gateway_awaiting_connection@,
                ConnId::Gateway(gateway_id),
                ips,
            ),
            forall|k: ConnId, w: Vec<IpAddr>|
                k != ConnId::Gateway(gateway_id) ==> (maps_to(
                    final(self).gateway_awaiting_connection@,
                    k,
                    w,
                ) <==> maps_to(old(self).gateway_awaiting_connection@, k, w)),
            final(self).peers_by_ip == old(self).peers_by_ip,
            final(self).peer_connections == old(self).peer_connections,
            final(self).awaiting_connection == old(self).awaiting_connection,
            final(self).ice_candidate_queue == old(self).ice_candidate_queue,
            final(self).device == old(self).device,
    {
        conn_insert(&mut self.gateway_awaiting_connection, ConnId::Gateway(gateway_id), ips);
    }

    /// Routes `ip` to the peer at `index`; a duplicate insert overwrites
    /// (the most recent channel-open is authoritative).
    pub fn insert_route(&mut self, ip: IpAddr, index: u32)
        requires
            old(self).wf(),
        ensures
            final(self).wf(),
            maps_to(final(self).peers_by_ip@, ip, index),
            forall|k: IpAddr, w: u32|
                k != ip ==> (maps_to(final(self).peers_by_ip@, k, w) <==> maps_to(
                    old(self).peers_by_ip@,
                    k,
                    w,
                )),
            final(self).peer_connections == old(self).peer_connections,
            final(self).gateway_awaiting_connection == old(self).gateway_awaiting_connection,
            final(self).awaiting_connection == old(self).awaiting_connection,
            final(self).ice_candidate_queue == old(self).ice_candidate_queue,
            final(self).device == old(self).device,
    {
        ip_insert(&mut self.peers_by_ip, ip, index);
    }

    /// The peer index `ip` routes to, if any.
    pub fn lookup(&self, ip: IpAddr) -> (r: Option<u32>)
        ensures
            match r {
                Some(index) => maps_to(self.peers_by_ip@, ip, index),
                None => !has_key(self.peers_by_ip@, ip),
            },
    {
        match ip_pos(&self.peers_by_ip, ip) {
            Some(p) => Some(self.peers_by_ip[p].1),
            None => None,
        }
    }

    /// Drops every route that points at the peer with `index`.
    pub fn remove_routes_by_peer(&mut self, index: u32)
        requires
            old(self).wf(),
        ensures
            final(self).wf(),
            final(self).peers_by_ip@ == without_snd(old(self).peers_by_ip@, index),
            forall|i: int|
                0 <= i < final(self).peers_by_ip@.len() ==> (#[trigger] final(self).peers_by_ip@[i]).1 != index,
            final(self).peer_connections == old(self).peer_connections,
            final(self).gateway_awaiting_connection == old(self).gateway_awaiting_connection,
            final(self).awaiting_connection == old(self).awaiting_connection,
            final(self).ice_candidate_queue == old(self).ice_candidate_queue,
            final(self).device == old(self).device,
    {
        let n = self.peers_by_ip.len();
        let mut out: Vec<(IpAddr, u32)> = Vec::new();
        let mut i: usize = 0;
        while i < n
            invariant
                *self == *old(self),
                0 <= i <= n == self.peers_by_ip@.len(),
                out@ == without_snd(self.peers_by_ip@.take(i as int), index),
            decreases n - i,
        {
            let e = self.peers_by_ip[i];
            proof {
                reveal(Seq::filter);
                assert(self.peers_by_ip@.take(i + 1).drop_last() =~= self.peers_by_ip@.take(
                    i as int,
                ));
                assert(self.peers_by_ip@.take(i + 1).last() == e);
            }
            if e.1 != index {
                out.push(e);
            }
            i = i + 1;
        }
        proof {
            assert(self.peers_by_ip@.take(n as int) =~= self.peers_by_ip@);
            lemma_filter_keys_unique(self.peers_by_ip@, snd_ne(index));
            assert forall|j: int| 0 <= j < out@.len() implies (#[trigger] out@[j]).1 != index by {
                self.peers_by_ip@.lemma_filter_pred(snd_ne(index), j);
            }
        }
        self.peers_by_ip = out;
    }

    /// Some pending allowed-IP set registered for `conn_id` contains `ip`.
    pub open spec fn spec_pending_contains(pre: Self, conn_id: ConnId, ip: IpAddr) -> bool {
        exists|pend: Vec<IpAddr>|
            #[trigger] maps_to(pre.gateway_awaiting_connection@, conn_id, pend) && pend@.contains(
                ip,
            )
    }

    /// `ip` is installed by a channel-open for `conn_id` with configured
    /// IPs `ips`: it is configured, or pending for the gateway.
    pub open spec fn spec_ip_installed(
        pre: Self,
        conn_id: ConnId,
        ips: Seq<IpAddr>,
        ip: IpAddr,
    ) -> bool {
        ips.contains(ip) || (conn_id is Gateway && Self::spec_pending_contains(pre, conn_id, ip))
    }

    /// The routing effect of a channel-open: every installed IP routes to
    /// the new peer's index, every other route is untouched, and a
    /// gateway's pending entry is consumed.
    pub open spec fn spec_routes_installed(
        pre: Self,
        post: Self,
        conn_id: ConnId,
        ips: Seq<IpAddr>,
        index: u32,
    ) -> bool {
        &&& forall|ip: IpAddr|
            #[trigger] Self::spec_ip_installed(pre, conn_id, ips, ip) ==> maps_to(
                post.peers_by_ip@,
                ip,
                index,
            )
        &&& forall|ip: IpAddr, v: u32|
            !Self::spec_ip_installed(pre, conn_id, ips, ip) ==> (#[trigger] maps_to(
                post.peers_by_ip@,
                ip,
                v,
            ) <==> maps_to(pre.peers_by_ip@, ip, v))
        &&& if conn_id is Gateway {
            &&& !has_key(post.gateway_awaiting_connection@, conn_id)
            &&& post.gateway_awaiting_connection@ == without_key(
                pre.gateway_awaiting_connection@,
                conn_id,
            )
        } else {
            post.gateway_awaiting_connection == pre.gateway_awaiting_connection
        }
    }

    /// Builds the peer for a freshly opened data channel and installs its
    /// routes. The noise state is created from the key material; for a
    /// gateway connection any pending allowed-IPs are grafted onto the peer
    /// and routed, atomically with the configured IPs, and the pending
    /// entry is consumed. The peer is returned for its packet loop; when no
    /// device is bound the peer is not started (`NoIface`), though the
    /// routes are installed as on success.
    pub fn handle_channel_open(
        &mut self,
        private_key: &[u8; 32],
        index: u32,
        peer_config: PeerConfig,
        conn_id: ConnId,
        resource: Option<(ResourceDescription, i64)>,
    ) -> (r: Result<Peer, Error>)
        requires
            old(self).wf(),
        ensures
            final(self).wf(),
            final(self).peer_connections == old(self).peer_connections,
            final(self).awaiting_connection == old(self).awaiting_connection,
            final(self).ice_candidate_queue == old(self).ice_candidate_queue,
            final(self).device == old(self).device,
            r is Ok <==> old(self).device is Some,
            match r {
                Ok(peer) => {
                    &&& old(self).device is Some
                    &&& peer.wf()
                    &&& peer.index == index
                    &&& peer.conn_id == conn_id
                    &&& peer.translated_resource_addresses@.len() == 0
                    &&& forall|ip: IpAddr|
                        #[trigger] peer.allowed_ips@.contains(ip) <==> Self::spec_ip_installed(
                            *old(self),
                            conn_id,
                            peer_config.ips@,
                            ip,
                        )
                    &&& Self::spec_routes_installed(
                        *old(self),
                        *final(self),
                        conn_id,
                        peer_config.ips@,
                        index,
                    )
                    &&& match resource {
                        Some(p) => peer.resource == Some(p.0) && peer.expires_at == Some(p.1),
                        None => peer.resource is None && peer.expires_at is None,
                    }
                },
                Err(e) => {
                    &&& e is NoIface
                    &&& old(self).device is None
                    &&& Self::spec_routes_installed(
                        *old(self),
                        *final(self),
                        conn_id,
                        peer_config.ips@,
                        index,
                    )
                },
            },
    {
        let tunn = crate::noise::new_tunn(
            private_key,
            &peer_config.public_key,
            Some(peer_config.preshared_key),
            peer_config.persistent_keepalive,
            index,
        ).unwrap();
        let mut peer = Peer::from_config(tunn, index, &peer_config, conn_id, resource);
        let ghost pre = *old(self);
        let ghost cfg = peer_config.ips@;
        let is_gateway = matches!(conn_id, ConnId::Gateway(_));
        let pending: Option<Vec<IpAddr>> = if is_gateway {
            conn_remove(&mut self.gateway_awaiting_connection, conn_id)
        } else {
            None
        };
        match pending {
            Some(pips) => {
                let ghost pend0 = pips@;
                let ghost gpend = pips;
                let m = pips.len();
                let mut k: usize = 0;
                while k < m
                    invariant
                        0 <= k <= m == pend0.len(),
                        pips@ == pend0,
                        gpend@ == pend0,
                        self.wf(),
                        is_gateway && conn_id is Gateway,
                        maps_to(pre.gateway_awaiting_connection@, conn_id, gpend),
                        keys_unique(pre.gateway_awaiting_connection@),
                        keys_unique(pre.peers_by_ip@),
                        self.gateway_awaiting_connection@ == without_key(
                            pre.gateway_awaiting_connection@,
                            conn_id,
                        ),
                        !has_key(self.gateway_awaiting_connection@, conn_id),
                        self.peer_connections == pre.peer_connections,
                        self.awaiting_connection == pre.awaiting_connection,
                        self.ice_candidate_queue == pre.ice_candidate_queue,
                        self.device == pre.device,
                        peer.wf(),
                        peer.index == index,
                        peer.conn_id == conn_id,
                        peer.translated_resource_addresses@.len() == 0,
                        peer.allowed_ips@ == cfg + pend0.take(k as int),
                        peer.resource == (match resource {
                            Some(p) => Some(p.0),
                            None => None::<ResourceDescription>,
                        }),
                        peer.expires_at == (match resource {
                            Some(p) => Some(p.1),
                            None => None::<i64>,
                        }),
                        forall|j: int|
                            0 <= j < k ==> maps_to(self.peers_by_ip@, #[trigger] pend0[j], index),
                        forall|ip: IpAddr, v: u32|
                            !pend0.take(k as int).contains(ip) ==> (#[trigger] maps_to(
                                self.peers_by_ip@,
                                ip,
                                v,
                            ) <==> maps_to(pre.peers_by_ip@, ip, v)),
                    decreases m - k,
                {
                    let ip = pips[k];
                    peer.add_allowed_ip(ip);
                    ip_insert(&mut self.peers_by_ip, ip, index);
                    proof {
                        assert(peer.allowed_ips@ =~= cfg + pend0.take(k + 1));
                        assert forall|j: int|
                            0 <= j < k + 1 implies maps_to(
                            self.peers_by_ip@,
                            #[trigger] pend0[j],
                            index,
                        ) by {
                            if j < k && pend0[j] != ip {
                            }
                        }
                        assert forall|ip2: IpAddr, v: u32|
                            !pend0.take(k + 1).contains(ip2) implies (#[trigger] maps_to(
                            self.peers_by_ip@,
                            ip2,
                            v,
                        ) <==> maps_to(pre.peers_by_ip@, ip2, v)) by {
                            assert(pend0.take(k + 1)[k as int] == ip);
                            assert(!pend0.take(k as int).contains(ip2)) by {
                                if pend0.take(k as int).contains(ip2) {
                                    let j = choose|j: int|
                                        0 <= j < k && #[trigger] pend0.take(k as int)[j] == ip2;
                                    assert(pend0.take(k + 1)[j] == ip2);
                                }
                            }
                            assert(ip2 != ip);
                        }
                    }
                    k = k + 1;
                }
                proof {
                    assert(pend0.take(m as int) =~= pend0);
                }
                self.install_configured_ips(&peer_config, index);
                proof {
                    let post = *self;
                    assert forall|ip: IpAddr|
                        #[trigger] Self::spec_ip_installed(pre, conn_id, cfg, ip) implies maps_to(
                        post.peers_by_ip@,
                        ip,
                        index,
                    ) by {
                        if cfg.contains(ip) {
                        } else {
                            let pend = choose|pend: Vec<IpAddr>|
                                #[trigger] maps_to(
                                    pre.gateway_awaiting_connection@,
                                    conn_id,
                                    pend,
                                ) && pend@.contains(ip);
                            crate::assoc::lemma_maps_to_unique(
                                pre.gateway_awaiting_connection@,
                                conn_id,
                                pend,
                                gpend,
                            );
                            let j = choose|j: int| 0 <= j < pend0.len() && pend0[j] == ip;
                            assert(maps_to(self.peers_by_ip@, pend0[j], index));
                        }
                    }
                    assert forall|ip: IpAddr, v: u32|
                        !Self::spec_ip_installed(pre, conn_id, cfg, ip) implies (#[trigger] maps_to(
                        post.peers_by_ip@,
                        ip,
                        v,
                    ) <==> maps_to(pre.peers_by_ip@, ip, v)) by {
                        assert(!cfg.contains(ip));
                        assert(!pend0.contains(ip)) by {
                            if pend0.contains(ip) {
                                assert(Self::spec_pending_contains(pre, conn_id, ip));
                            }
                        }
                    }
                    assert forall|ip: IpAddr|
                        #[trigger] peer.allowed_ips@.contains(ip) <==> Self::spec_ip_installed(
                            pre,
                            conn_id,
                            cfg,
                            ip,
                        ) by {
                        assert(peer.allowed_ips@ == cfg + pend0);
                        if peer.allowed_ips@.contains(ip) {
                            let j = choose|j: int|
                                0 <= j < peer.allowed_ips@.len() && peer.allowed_ips@[j] == ip;
                            if j < cfg.len() {
                                assert(cfg[j] == ip);
                            } else {
                                assert(pend0[j - cfg.len()] == ip);
                                assert(Self::spec_pending_contains(pre, conn_id, ip));
                            }
                        }
                        if Self::spec_ip_installed(pre, conn_id, cfg, ip) {
                            if cfg.contains(ip) {
                                let j = choose|j: int| 0 <= j < cfg.len() && cfg[j] == ip;
                                assert(peer.allowed_ips@[j] == ip);
                            } else {
                                let pend = choose|pend: Vec<IpAddr>|
                                    #[trigger] maps_to(
                                        pre.gateway_awaiting_connection@,
                                        conn_id,
                                        pend,
                                    ) && pend@.contains(ip);
                                crate::assoc::lemma_maps_to_unique(
                                    pre.gateway_awaiting_connection@,
                                    conn_id,
                                    pend,
                                    gpend,
                                );
                                let j = choose|j: int| 0 <= j < pend0.len() && pend0[j] == ip;
                                assert(peer.allowed_ips@[cfg.len() + j] == ip);
                            }
                        }
                    }
                }
            },
            None => {
                proof {
                    if is_gateway {
                        assert(!has_key(pre.gateway_awaiting_connection@, conn_id));
                    }
                    assert(peer.allowed_ips@ =~= cfg + Seq::<IpAddr>::empty());
                }
                self.install_configured_ips(&peer_config, index);
                proof {
                    let post = *self;
                    assert forall|ip: IpAddr|
                        #[trigger] Self::spec_ip_installed(pre, conn_id, cfg, ip) implies maps_to(
                        post.peers_by_ip@,
                        ip,
                        index,
                    ) by {
                        if !cfg.contains(ip) {
                            let pend = choose|pend: Vec<IpAddr>|
                                #[trigger] maps_to(
                                    pre.gateway_awaiting_connection@,
                                    conn_id,
                                    pend,
                                ) && pend@.contains(ip);
                            assert(has_key(pre.gateway_awaiting_connection@, conn_id));
                        }
                    }
                    assert forall|ip: IpAddr|
                        #[trigger] peer.allowed_ips@.contains(ip) <==> Self::spec_ip_installed(
                            pre,
                            conn_id,
                            cfg,
                            ip,
                        ) by {
                        assert(peer.allowed_ips@ == cfg);
                        if Self::spec_ip_installed(pre, conn_id, cfg, ip) && !cfg.contains(ip) {
                            let pend = choose|pend: Vec<IpAddr>|
                                #[trigger] maps_to(
                                    pre.gateway_awaiting_connection@,
                                    conn_id,
                                    pend,
                                ) && pend@.contains(ip);
                            assert(has_key(pre.gateway_awaiting_connection@, conn_id));
                        }
                    }
                }
            },
        }
        if self.device.is_none() {
            return Err(Error::NoIface);
        }
        Ok(peer)
    }

    /// Routes every configured IP of the peer config to `index`.
    fn install_configured_ips(&mut self, peer_config: &PeerConfig, index: u32)
        requires
            old(self).wf(),
        ensures
            final(self).wf(),
            forall|j: int|
                0 <= j < peer_config.ips@.len() ==> maps_to(
                    final(self).peers_by_ip@,
                    #[trigger] peer_config.ips@[j],
                    index,
                ),
            forall|ip: IpAddr, v: u32|
                !peer_config.ips@.contains(ip) ==> (#[trigger] maps_to(
                    final(self).peers_by_ip@,
                    ip,
                    v,
                ) <==> maps_to(old(self).peers_by_ip@, ip, v)),
            forall|ip: IpAddr|
                maps_to(old(self).peers_by_ip@, ip, index) ==> #[trigger] maps_to(
                    final(self).peers_by_ip@,
                    ip,
                    index,
                ),
            final(self).peer_connections == old(self).peer_connections,
            final(self).gateway_awaiting_connection == old(self).gateway_awaiting_connection,
            final(self).awaiting_connection == old(self).awaiting_connection,
            final(self).ice_candidate_queue == old(self).ice_candidate_queue,
            final(self).device == old(self).device,
    {
        let ghost start = *old(self);
        let ghost cfg = peer_config.ips@;
        let n = peer_config.ips.len();
        let mut k: usize = 0;
        while k < n
            invariant
                0 <= k <= n == cfg.len(),
                cfg == peer_config.ips@,
                self.wf(),
                keys_unique(start.peers_by_ip@),
                self.peer_connections == start.peer_connections,
                self.gateway_awaiting_connection == start.gateway_awaiting_connection,
                self.awaiting_connection == start.awaiting_connection,
                self.ice_candidate_queue == start.ice_candidate_queue,
                self.device == start.device,
                forall|j: int| 0 <= j < k ==> maps_to(self.peers_by_ip@, #[trigger] cfg[j], index),
                forall|ip: IpAddr, v: u32|
                    !cfg.take(k as int).contains(ip) ==> (#[trigger] maps_to(
                        self.peers_by_ip@,
                        ip,
                        v,
                    ) <==> maps_to(start.peers_by_ip@, ip, v)),
                forall|ip: IpAddr|
                    maps_to(start.peers_by_ip@, ip, index) ==> #[trigger] maps_to(
                        self.peers_by_ip@,
                        ip,
                        index,
                    ),
            decreases n - k,
        {
            let ip = peer_config.ips[k];
            ip_insert(&mut self.peers_by_ip, ip, index);
            proof {
                assert forall|j: int|
                    0 <= j < k + 1 implies maps_to(self.peers_by_ip@, #[trigger] cfg[j], index) by {
                    if j < k && cfg[j] != ip {
                    }
                }
                assert forall|ip2: IpAddr, v: u32|
                    !cfg.take(k + 1).contains(ip2) implies (#[trigger] maps_to(
                    self.peers_by_ip@,
                    ip2,
                    v,
                ) <==> maps_to(start.peers_by_ip@, ip2, v)) by {
                    assert(cfg.take(k + 1)[k as int] == ip);
                    assert(!cfg.take(k as int).contains(ip2)) by {
                        if cfg.take(k as int).contains(ip2) {
                            let j = choose|j: int|
                                0 <= j < k && #[trigger] cfg.take(k as int)[j] == ip2;
                            assert(cfg.take(k + 1)[j] == ip2);
                        }
                    }
                    assert(ip2 != ip);
                }
                assert forall|ip2: IpAddr|
                    maps_to(start.peers_by_ip@, ip2, index) implies #[trigger] maps_to(
                    self.peers_by_ip@,
                    ip2,
                    index,
                ) by {
                    if ip2 != ip {
                    }
                }
            }
            k = k + 1;
        }
        proof {
            assert forall|ip: IpAddr, v: u32|
                !cfg.contains(ip) implies (#[trigger] maps_to(self.peers_by_ip@, ip, v) <==> maps_to(
                start.peers_by_ip@,
                ip,
                v,
            )) by {
                assert(!cfg.take(n as int).contains(ip)) by {
                    if cfg.take(n as int).contains(ip) {
                        let j = choose|j: int| 0 <= j < n && #[trigger] cfg.take(n as int)[j] == ip;
                        assert(cfg[j] == ip);
                    }
                }
            }
            assert forall|j: int|
                0 <= j < cfg.len() implies maps_to(
                self.peers_by_ip@,
                #[trigger] cfg[j],
                index,
            ) by {
            }
        }
    }

    /// Tears the peer with `index` down: removes every route that points at
    /// it and forgets the peer connection of `conn_id`, which is returned
    /// so the embedding layer can close it.
    pub fn stop_peer(&mut self, index: u32, conn_id: ConnId) -> (r: Option<P>)
        requires
            old(self).wf(),
        ensures
            final(self).wf(),
            final(self).peers_by_ip@ == without_snd(old(self).peers_by_ip@, index),
            forall|i: int|
                0 <= i < final(self).peers_by_ip@.len() ==> (#[trigger] final(self).peers_by_ip@[i]).1 != index,
            final(self).peer_connections@ == without_key(old(self).peer_connections@, conn_id),
            match r {
                Some(p) => maps_to(old(self).peer_connections@, conn_id, p),
                None => !has_key(old(self).peer_connections@, conn_id),
            },
            final(self).gateway_awaiting_connection == old(self).gateway_awaiting_connection,
            final(self).awaiting_connection == old(self).awaiting_connection,
            final(self).ice_candidate_queue == old(self).ice_candidate_queue,
            final(self).device == old(self).device,
    {
        self.remove_routes_by_peer(index);
        conn_remove(&mut self.peer_connections, conn_id)
    }
}

} // verus!
