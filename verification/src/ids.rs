//! Connection and resource identifiers.

use vstd::prelude::*;

verus! {

/// A tagged 128-bit connection identifier. A connection is scoped to a
/// client, a gateway, or a single resource.
#[derive(Clone, Copy, PartialEq, Eq, Structural, Debug, Hash)]
pub enum ConnId {
    Client(u128),
    Gateway(u128),
    Resource(u128),
}

} // verus!
