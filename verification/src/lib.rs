//! Gateway-side core of a zero-trust overlay network.
//!
//! The library models the data-plane tunnel engine and its control-protocol
//! glue: the routing table from client source IPs to peers, the ingress
//! access-control check, resource resolution for CIDR- and DNS-named targets,
//! IP packet destination rewriting with checksum recomputation, the
//! connection bookkeeping of the orchestrator, and the session supervisor's
//! decision logic (reconnection backoff, panic mapping, single-shot
//! disconnect). Asynchronous transports (the portal socket, WebRTC peer
//! connections, the TUN device) are driven by an embedding layer that calls
//! into these verified functions and carries out the actions they return.

pub mod assoc;
pub mod errors;
pub mod ids;
pub mod ip;
pub mod noise;
pub mod packet;
pub mod peer;
pub mod portal;
pub mod relay;
pub mod resource;
pub mod sender;
pub mod session;
pub mod tunnel;
