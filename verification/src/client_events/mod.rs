//! Clients and what the node answers them.
pub mod admin_endpoints;

use vstd::prelude::*;

verus! {

/// The number of a client connection.
#[derive(Clone, Copy, Debug, PartialEq, Eq, Hash, Structural)]
pub struct ClientId {
    pub id: usize,
}

impl ClientId {
    /// The first number.
    pub fn first() -> (c: Self)
        ensures
            c.id == 0,
    {
        ClientId { id: 0 }
    }
}

/// A token of the legacy protocol.
#[derive(Debug, PartialEq, Eq)]
pub struct AuthToken {
    pub token: String,
}

} // verus!
