//! Construction of the per-peer WireGuard noise state.
//!
//! The cryptographic tunnel object is opaque to the rest of the library: it
//! is created here from plain key material and carried inside a `Peer`.

use vstd::prelude::*;

verus! {

#[verifier::external_type_specification]
#[verifier::external_body]
pub struct ExTunn(boringtun::noise::Tunn);

/// Relies on boringtun's `Tunn::new` to build the WireGuard noise state for
/// one peer from the local private key, the peer's public key, an optional
/// preshared key, an optional keepalive interval and the 32-bit index. In
/// this boringtun version the constructor accepts every such configuration:
/// its only error path runs through `NoiseParams::new`, which always
/// succeeds, so the call returns the noise state for every input.
#[verifier::external_body]
pub(crate) fn new_tunn(
    private_key: &[u8; 32],
    peer_public_key: &[u8; 32],
    preshared_key: Option<[u8; 32]>,
    persistent_keepalive: Option<u16>,
    index: u32,
) -> (r: Option<Box<boringtun::noise::Tunn>>)
    ensures
        r is Some,
{
    match boringtun::noise::Tunn::new(
        (*private_key).into(),
        (*peer_public_key).into(),
        preshared_key,
        persistent_keepalive,
        index,
        None,
    ) {
        Ok(t) => Some(t),
        Err(_) => None,
    }
}

} // verus!
