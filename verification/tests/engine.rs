//! End-to-end scenarios of the ingress packet path and the session
//! decisions.

use gateway_tunnel::errors::Error;
use gateway_tunnel::ids::ConnId;
use gateway_tunnel::ip::{IpAddr, IpPrefix};
use gateway_tunnel::peer::PeerConfig;
use gateway_tunnel::resource::{CidrResource, DnsResource, ResourceDescription};
use gateway_tunnel::sender::{send_to_resource, PacketOutcome};
use gateway_tunnel::session::{
    decide_reconnect, panic_payload_error, ReconnectDecision, ReconnectSupervisor, SessionState,
};
use gateway_tunnel::tunnel::Tunnel;

fn v4(a: u32) -> IpAddr {
    IpAddr::V4(a)
}

fn cidr_resource() -> ResourceDescription {
    // 10.50.0.0/16
    ResourceDescription::Cidr(CidrResource {
        id: 42,
        address: IpPrefix { base: v4(0x0A32_0000), len: 16 },
    })
}

fn config(ips: Vec<IpAddr>) -> PeerConfig {
    PeerConfig {
        persistent_keepalive: Some(25),
        public_key: [7u8; 32],
        ips,
        preshared_key: [9u8; 32],
    }
}

fn open_peer(
    tunnel: &mut Tunnel<(), (), ()>,
    conn_id: ConnId,
    ips: Vec<IpAddr>,
    resource: Option<(ResourceDescription, i64)>,
) -> gateway_tunnel::peer::Peer {
    tunnel
        .handle_channel_open(&[3u8; 32], 1, config(ips), conn_id, resource)
        .expect("channel open")
}

// A UDP/IPv4 packet 10.0.0.2 -> 10.50.1.1 with correct checksums.
fn packet_to_cidr_target() -> Vec<u8> {
    vec![
        69, 0, 0, 33, 18, 52, 0, 0, 64, 17, 83, 100, 10, 0, 0, 2, 10, 50, 1, 1, 156, 64, 31, 144,
        0, 13, 234, 252, 104, 101, 108, 108, 111,
    ]
}

// The same packet shape destined to 10.99.0.1, outside the prefix.
fn packet_to_outside_prefix() -> Vec<u8> {
    let mut p = packet_to_cidr_target();
    p[16] = 10;
    p[17] = 99;
    p[18] = 0;
    p[19] = 1;
    p
}

#[test]
fn happy_path_cidr_packet_forwarded() {
    let mut tunnel: Tunnel<(), (), ()> = Tunnel::new();
    tunnel.set_device(Some(()));
    let mut peer = open_peer(
        &mut tunnel,
        ConnId::Client(1),
        vec![v4(0x0A00_0002)],
        Some((cidr_resource(), 0)),
    );
    let mut packet = packet_to_cidr_target();
    let before = packet.clone();
    let outcome = send_to_resource(&mut peer, v4(0x0A00_0002), &mut packet, &Vec::new());
    assert_eq!(outcome, PacketOutcome::WriteV4);
    // destination inside the prefix: rewritten to itself, bytes unchanged
    assert_eq!(packet, before);
}

#[test]
fn unallowed_source_dropped() {
    let mut tunnel: Tunnel<(), (), ()> = Tunnel::new();
    tunnel.set_device(Some(()));
    let mut peer = open_peer(
        &mut tunnel,
        ConnId::Client(1),
        vec![v4(0x0A00_0002)],
        Some((cidr_resource(), 0)),
    );
    let mut packet = packet_to_cidr_target();
    let before = packet.clone();
    let outcome = send_to_resource(&mut peer, v4(0x0A00_0009), &mut packet, &Vec::new());
    assert_eq!(outcome, PacketOutcome::DroppedUnallowed);
    assert_eq!(packet, before);
}

#[test]
fn cidr_hijack_dropped_invalid_source() {
    let mut tunnel: Tunnel<(), (), ()> = Tunnel::new();
    tunnel.set_device(Some(()));
    let mut peer = open_peer(
        &mut tunnel,
        ConnId::Client(1),
        vec![v4(0x0A00_0002)],
        Some((cidr_resource(), 0)),
    );
    let mut packet = packet_to_outside_prefix();
    let before = packet.clone();
    let outcome = send_to_resource(&mut peer, v4(0x0A00_0002), &mut packet, &Vec::new());
    assert_eq!(outcome, PacketOutcome::DroppedError(Error::InvalidSource));
    assert_eq!(packet, before);
}

#[test]
fn dns_resolution_rewrites_and_caches() {
    let mut tunnel: Tunnel<(), (), ()> = Tunnel::new();
    tunnel.set_device(Some(()));
    let resource = ResourceDescription::Dns(DnsResource {
        id: 77,
        address: b"example.internal:8080".to_vec(),
    });
    let mut peer = open_peer(
        &mut tunnel,
        ConnId::Client(1),
        vec![v4(0x0A00_0002)],
        Some((resource, 0)),
    );
    // UDP/IPv4 packet 10.0.0.2 -> 100.64.0.5 with correct checksums
    let mut packet = vec![
        69, 0, 0, 33, 18, 52, 0, 0, 64, 17, 250, 81, 10, 0, 0, 2, 100, 64, 0, 5, 156, 64, 31, 144,
        0, 13, 145, 234, 104, 101, 108, 108, 111,
    ];
    // name resolution returned a v4 and a v6 address; the source is v4
    let resolved = vec![v4(0xCB00_7104), IpAddr::V6(0x2001_0db8_0000_0000_0000_0000_0000_0004)];
    let outcome = send_to_resource(&mut peer, v4(0x0A00_0002), &mut packet, &resolved);
    assert_eq!(outcome, PacketOutcome::WriteV4);
    // destination rewritten to 203.0.113.4 with both checksums recomputed
    let expected = vec![
        69, 0, 0, 33, 18, 52, 0, 0, 64, 17, 34, 146, 10, 0, 0, 2, 203, 0, 113, 4, 156, 64, 31,
        144, 0, 13, 186, 42, 104, 101, 108, 108, 111,
    ];
    assert_eq!(packet, expected);
    // the translation cache records the chosen address for the resource id
    assert_eq!(peer.translated_resource_address(77), Some(v4(0xCB00_7104)));
}

#[test]
fn reconnect_backoff_decisions() {
    assert_eq!(decide_reconnect(Some(500)), ReconnectDecision::RetryAfter(500));
    assert_eq!(decide_reconnect(None), ReconnectDecision::Fatal);
    let mut sup = ReconnectSupervisor::new();
    sup.on_connected();
    // the default policy never exhausts; the first interval is ~500ms
    match sup.on_portal_disconnect() {
        ReconnectDecision::RetryAfter(t) => assert!((200..=800).contains(&t), "interval {t}"),
        ReconnectDecision::Fatal => panic!("unbounded backoff must not exhaust"),
    }
}

#[test]
fn panic_payload_maps_to_error() {
    assert_eq!(
        panic_payload_error(Some("boom".to_string())),
        Error::Panic("boom".to_string())
    );
    assert_eq!(panic_payload_error(None), Error::PanicNonStringPayload);
}

#[test]
fn disconnect_notifies_exactly_once() {
    let mut state = SessionState::new();
    assert!(state.disconnect());
    assert!(!state.disconnect());
    assert!(!state.disconnect());
}
