//! Routing table, connection bookkeeping, packet rewriting and parsing.

use gateway_tunnel::errors::Error;
use gateway_tunnel::ids::ConnId;
use gateway_tunnel::ip::{get_matching_version_ip, IpAddr, IpPrefix};
use gateway_tunnel::packet::update_packet;
use gateway_tunnel::peer::PeerConfig;
use gateway_tunnel::portal::{control_loop_step, LoopAction, LoopEvent, PortalQueue};
use gateway_tunnel::relay::{
    ice_servers_of_relays, IceCredentialType, Relay, StunServer, TurnServer,
};
use gateway_tunnel::resource::{dns_host, dns_port};
use gateway_tunnel::tunnel::{
    handle_connection_state_update, ice_consumer_step, ConnectionState, IceConsumerAction,
    IceConsumerEvent, Tunnel,
};

fn v4(a: u32) -> IpAddr {
    IpAddr::V4(a)
}

fn cfg(ips: Vec<IpAddr>) -> PeerConfig {
    PeerConfig {
        persistent_keepalive: None,
        public_key: [1u8; 32],
        ips,
        preshared_key: [2u8; 32],
    }
}

#[test]
fn channel_open_installs_configured_routes() {
    let mut t: Tunnel<(), (), ()> = Tunnel::new();
    t.set_device(Some(()));
    let peer = t
        .handle_channel_open(&[3u8; 32], 5, cfg(vec![v4(0x0A00_0002), v4(0x0A00_0003)]), ConnId::Client(1), None)
        .expect("open");
    assert_eq!(peer.index, 5);
    assert_eq!(t.lookup(v4(0x0A00_0002)), Some(5));
    assert_eq!(t.lookup(v4(0x0A00_0003)), Some(5));
    assert_eq!(t.lookup(v4(0x0A00_0004)), None);
}

#[test]
fn gateway_channel_open_grafts_pending_ips() {
    let mut t: Tunnel<(), (), ()> = Tunnel::new();
    t.set_device(Some(()));
    t.add_gateway_awaiting_connection(7, vec![v4(0x0A00_0008)]);
    let peer = t
        .handle_channel_open(&[3u8; 32], 9, cfg(vec![v4(0x0A00_0002)]), ConnId::Gateway(7), None)
        .expect("open");
    // configured and pending IPs are both in the ACL and both routed
    assert!(peer.is_allowed(v4(0x0A00_0002)));
    assert!(peer.is_allowed(v4(0x0A00_0008)));
    assert_eq!(t.lookup(v4(0x0A00_0002)), Some(9));
    assert_eq!(t.lookup(v4(0x0A00_0008)), Some(9));
    // the pending entry is consumed
    assert_eq!(t.gateway_awaiting_connection.len(), 0);
}

#[test]
fn no_iface_rejects_peer() {
    let mut t: Tunnel<(), (), ()> = Tunnel::new();
    let r = t.handle_channel_open(&[3u8; 32], 1, cfg(vec![v4(1)]), ConnId::Client(1), None);
    assert_eq!(r.err(), Some(Error::NoIface));
}

#[test]
fn stop_peer_removes_all_routes() {
    let mut t: Tunnel<(), (), ()> = Tunnel::new();
    t.set_device(Some(()));
    t.insert_peer_connection(ConnId::Client(1), ());
    let _ = t
        .handle_channel_open(&[3u8; 32], 5, cfg(vec![v4(10), v4(11)]), ConnId::Client(1), None)
        .expect("open");
    let _ = t
        .handle_channel_open(&[4u8; 32], 6, cfg(vec![v4(20)]), ConnId::Client(2), None)
        .expect("open");
    let conn = t.stop_peer(5, ConnId::Client(1));
    assert_eq!(conn, Some(()));
    // no route references the stopped peer any more
    assert_eq!(t.lookup(v4(10)), None);
    assert_eq!(t.lookup(v4(11)), None);
    // the other peer keeps its routes
    assert_eq!(t.lookup(v4(20)), Some(6));
    // stopping again is safe and a no-op
    assert_eq!(t.stop_peer(5, ConnId::Client(1)), None);
}

#[test]
fn cleanup_connection_idempotent_and_safe() {
    let mut t: Tunnel<(), (), ()> = Tunnel::new();
    // safe on an id that was never registered
    t.cleanup_connection(ConnId::Resource(99));
    t.add_awaiting_connection(ConnId::Client(1));
    t.insert_peer_connection(ConnId::Client(1), ());
    t.insert_peer_connection(ConnId::Client(2), ());
    t.cleanup_connection(ConnId::Client(1));
    assert_eq!(t.awaiting_connection.len(), 0);
    assert_eq!(t.peer_connections.len(), 1);
    // cleaning up again changes nothing
    t.cleanup_connection(ConnId::Client(1));
    assert_eq!(t.peer_connections.len(), 1);
    assert!(t.get_peer_connection(ConnId::Client(2)).is_some());
}

#[test]
fn ice_queue_taken_once() {
    let mut t: Tunnel<(), u8, ()> = Tunnel::new();
    t.register_ice_queue(ConnId::Client(1), 42);
    assert_eq!(t.start_ice_candidate_handler(ConnId::Client(1)), Ok(42));
    // taking the queue twice is a control-protocol bug
    assert_eq!(
        t.start_ice_candidate_handler(ConnId::Client(1)),
        Err(Error::ControlProtocolError)
    );
}

#[test]
fn add_ice_candidate_needs_known_connection() {
    let mut t: Tunnel<u8, (), ()> = Tunnel::new();
    assert_eq!(t.add_ice_candidate(ConnId::Client(1)).err(), Some(Error::ControlProtocolError));
    t.insert_peer_connection(ConnId::Client(1), 17);
    // repeated additions meet the same peer connection
    assert_eq!(t.add_ice_candidate(ConnId::Client(1)).ok(), Some(&17));
    assert_eq!(t.add_ice_candidate(ConnId::Client(1)).ok(), Some(&17));
}

#[test]
fn portal_queue_preserves_order() {
    let mut q: PortalQueue<u32> = PortalQueue::new();
    assert_eq!(q.recv(), None);
    q.send(1);
    assert_eq!(q.recv(), Some(1));
    q.send(2);
    assert_eq!(q.recv(), Some(2));
    q.send(3);
    assert_eq!(q.recv(), Some(3));
    assert_eq!(q.recv(), None);
}

#[test]
fn control_loop_step_actions() {
    assert_eq!(control_loop_step(&LoopEvent::Message(5u8)), LoopAction::Dispatch);
    assert_eq!(control_loop_step::<u8>(&LoopEvent::MessageError), LoopAction::Ignore);
    assert_eq!(control_loop_step::<u8>(&LoopEvent::Tick), LoopAction::EmitStats);
    assert_eq!(control_loop_step::<u8>(&LoopEvent::Closed), LoopAction::Exit);
}

#[test]
fn relays_map_to_ice_servers() {
    let servers = ice_servers_of_relays(vec![
        Relay::Stun(StunServer { uri: "stun:s:3478".to_string() }),
        Relay::Turn(TurnServer {
            uri: "turn:t:3478".to_string(),
            username: "user".to_string(),
            password: "pass".to_string(),
        }),
    ]);
    assert_eq!(servers.len(), 2);
    assert_eq!(servers[0].urls, vec!["stun:s:3478".to_string()]);
    assert_eq!(servers[0].username, None);
    assert_eq!(servers[0].credential_type, IceCredentialType::Unspecified);
    assert_eq!(servers[1].urls, vec!["turn:t:3478".to_string()]);
    assert_eq!(servers[1].username, Some("user".to_string()));
    assert_eq!(servers[1].credential, Some("pass".to_string()));
    assert_eq!(servers[1].credential_type, IceCredentialType::Password);
}

#[test]
fn dns_address_splitting_and_ports() {
    assert_eq!(dns_host(&b"example.internal:8080".to_vec()), b"example.internal".to_vec());
    assert_eq!(dns_host(&b"plainhost".to_vec()), b"plainhost".to_vec());
    assert_eq!(dns_port(&b"example.internal:8080".to_vec()), Some(8080));
    assert_eq!(dns_port(&b"plainhost".to_vec()), None);
    assert_eq!(dns_port(&b"h:+80".to_vec()), Some(80));
    assert_eq!(dns_port(&b"h:80:90".to_vec()), Some(80));
    assert_eq!(dns_port(&b"h:0080".to_vec()), Some(80));
    assert_eq!(dns_port(&b"h:99999".to_vec()), None);
    assert_eq!(dns_port(&b"h:".to_vec()), None);
    assert_eq!(dns_port(&b"h:8x".to_vec()), None);
}

#[test]
fn cidr_containment_edges() {
    let p = IpPrefix { base: v4(0x0A32_0000), len: 16 };
    assert!(p.contains(v4(0x0A32_0000)));
    assert!(p.contains(v4(0x0A32_FFFF)));
    assert!(!p.contains(v4(0x0A33_0000)));
    assert!(!p.contains(IpAddr::V6(1)));
    let all = IpPrefix { base: v4(0), len: 0 };
    assert!(all.contains(v4(0xFFFF_FFFF)));
    let v6p = IpPrefix { base: IpAddr::V6(0x2001_0db8 << 96), len: 32 };
    assert!(v6p.contains(IpAddr::V6((0x2001_0db8 << 96) | 0x1234)));
    assert!(!v6p.contains(IpAddr::V6(0x2001_0db9 << 96)));
}

#[test]
fn matching_version_ip_requires_same_family() {
    let a4 = v4(1);
    let b4 = v4(2);
    let b6 = IpAddr::V6(2);
    assert_eq!(get_matching_version_ip(&a4, &b4), Some(b4));
    assert_eq!(get_matching_version_ip(&a4, &b6), None);
    assert_eq!(get_matching_version_ip(&b6, &b6), Some(b6));
}

#[test]
fn packet_rewrite_is_idempotent() {
    // UDP/IPv4 packet with stale checksums
    let mut p1 = vec![
        69, 0, 0, 33, 18, 52, 0, 0, 64, 17, 0, 0, 10, 0, 0, 2, 100, 64, 0, 5, 156, 64, 31, 144, 0,
        13, 0, 0, 104, 101, 108, 108, 111,
    ];
    update_packet(&mut p1, v4(0xCB00_7104));
    let once = p1.clone();
    update_packet(&mut p1, v4(0xCB00_7104));
    assert_eq!(p1, once);
    // the rewrite is the pure function of (header, new_dst): same input,
    // same bytes
    let mut p2 = vec![
        69, 0, 0, 33, 18, 52, 0, 0, 64, 17, 0, 0, 10, 0, 0, 2, 100, 64, 0, 5, 156, 64, 31, 144, 0,
        13, 0, 0, 104, 101, 108, 108, 111,
    ];
    update_packet(&mut p2, v4(0xCB00_7104));
    assert_eq!(p2, once);
    // rewriting computes the correct checksums
    let expected = vec![
        69, 0, 0, 33, 18, 52, 0, 0, 64, 17, 34, 146, 10, 0, 0, 2, 203, 0, 113, 4, 156, 64, 31,
        144, 0, 13, 186, 42, 104, 101, 108, 108, 111,
    ];
    assert_eq!(once, expected);
}

#[test]
fn malformed_packet_rewrite_is_noop() {
    let mut garbage = vec![1u8, 2, 3];
    update_packet(&mut garbage, v4(5));
    assert_eq!(garbage, vec![1u8, 2, 3]);
    // a family mismatch is also left alone
    let mut p = vec![
        69, 0, 0, 33, 18, 52, 0, 0, 64, 17, 0, 0, 10, 0, 0, 2, 100, 64, 0, 5, 156, 64, 31, 144, 0,
        13, 0, 0, 104, 101, 108, 108, 111,
    ];
    let before = p.clone();
    update_packet(&mut p, IpAddr::V6(9));
    assert_eq!(p, before);
}

#[test]
fn ipv6_udp_rewrite_recomputes_transport_checksum() {
    let mut p = vec![
        96u8, 0, 0, 0, 0, 10, 17, 64, 32, 1, 13, 184, 0, 0, 0, 0, 0, 0, 0, 0, 0, 0, 0, 1, 32, 1,
        13, 184, 0, 0, 0, 0, 0, 0, 0, 0, 0, 0, 0, 5, 15, 160, 0, 53, 0, 10, 0, 0, 104, 105,
    ];
    let dst = IpAddr::V6((0x2001_0db8u128 << 96) | 9);
    update_packet(&mut p, dst);
    let expected = vec![
        96u8, 0, 0, 0, 0, 10, 17, 64, 32, 1, 13, 184, 0, 0, 0, 0, 0, 0, 0, 0, 0, 0, 0, 1, 32, 1,
        13, 184, 0, 0, 0, 0, 0, 0, 0, 0, 0, 0, 0, 9, 15, 160, 0, 53, 0, 10, 44, 32, 104, 105,
    ];
    assert_eq!(p, expected);
}

#[test]
fn ipv4_tcp_rewrite_recomputes_both_checksums() {
    let mut p = vec![
        69u8, 0, 0, 40, 0, 153, 0, 0, 64, 6, 0, 0, 10, 0, 0, 2, 100, 64, 0, 5, 4, 210, 0, 80, 0,
        0, 0, 7, 0, 0, 0, 0, 80, 24, 2, 0, 0, 0, 0, 0,
    ];
    update_packet(&mut p, v4(0xCB00_7104));
    let expected = vec![
        69u8, 0, 0, 40, 0, 153, 0, 0, 64, 6, 52, 49, 10, 0, 0, 2, 203, 0, 113, 4, 4, 210, 0, 80,
        0, 0, 0, 7, 0, 0, 0, 0, 80, 24, 2, 0, 98, 157, 0, 0,
    ];
    assert_eq!(p, expected);
}

#[test]
fn connection_state_update_stops_only_on_failed() {
    assert!(handle_connection_state_update(ConnectionState::Failed));
    assert!(!handle_connection_state_update(ConnectionState::New));
    assert!(!handle_connection_state_update(ConnectionState::Connecting));
    assert!(!handle_connection_state_update(ConnectionState::Connected));
    assert!(!handle_connection_state_update(ConnectionState::Disconnected));
    assert!(!handle_connection_state_update(ConnectionState::Closed));
}

#[test]
fn ice_consumer_forwards_skips_and_reports() {
    assert_eq!(ice_consumer_step(&IceConsumerEvent::Candidate(7u8)), IceConsumerAction::Forward);
    assert_eq!(ice_consumer_step::<u8>(&IceConsumerEvent::NullCandidate), IceConsumerAction::Skip);
    assert_eq!(
        ice_consumer_step::<u8>(&IceConsumerEvent::SignalingError),
        IceConsumerAction::ReportAndContinue
    );
}

#[test]
fn prefix_validity_is_testable_at_runtime() {
    assert!(IpPrefix { base: v4(0), len: 32 }.is_wf());
    assert!(!IpPrefix { base: v4(0), len: 33 }.is_wf());
    assert!(IpPrefix { base: IpAddr::V6(0), len: 128 }.is_wf());
    assert!(!IpPrefix { base: IpAddr::V6(0), len: 129 }.is_wf());
}
