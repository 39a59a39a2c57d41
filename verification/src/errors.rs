//! Error kinds of the tunnel engine.

use vstd::prelude::*;

verus! {

/// The semantic error kinds of the gateway core.
///
/// `UriError` is fatal at startup; `PortalConnectionError` drives the
/// reconnection loop; `ControlProtocolError` marks an internal bookkeeping
/// inconsistency of one connection; `NoIface` rejects a peer when no device
/// is bound; `InvalidResource` and `InvalidSource` drop a packet; the two
/// panic kinds trigger a full disconnect.
#[derive(Clone, PartialEq, Eq, Debug)]
pub enum Error {
    UriError,
    PortalConnectionError,
    ControlProtocolError,
    NoIface,
    InvalidResource,
    InvalidSource,
    Panic(String),
    PanicNonStringPayload,
}

} // verus!
