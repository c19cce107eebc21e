//! Positions on the ring and the peers there.
use crate::linear_map::{bytes_eq, KeyEq};
use vstd::prelude::*;

verus! {

/// A position on the ring, as the bits of an IEEE double.
#[derive(Clone, Copy, Debug, PartialEq, Eq, Structural)]
pub struct Location {
    pub bits: u64,
}

/// The hash of a peer's public key.
#[derive(Clone, Copy, Debug, PartialEq, Eq)]
pub struct PeerKeyHash {
    pub bytes: [u8; 32],
}

impl View for PeerKeyHash {
    type V = Seq<u8>;

    open spec fn view(&self) -> Seq<u8> {
        self.bytes@
    }
}

impl KeyEq for PeerKeyHash {
    fn key_eq(&self, other: &Self) -> (same: bool) {
        bytes_eq(&self.bytes, &other.bytes)
    }
}

/// A peer: its key, its position, and its address in text form.
#[derive(Debug)]
pub struct PeerKeyLocation {
    pub key: [u8; 32],
    pub location: Location,
    pub addr: String,
}

impl View for PeerKeyLocation {
    type V = (Seq<u8>, Location, Seq<char>);

    open spec fn view(&self) -> (Seq<u8>, Location, Seq<char>) {
        (self.key@, self.location, self.addr@)
    }
}

impl KeyEq for PeerKeyLocation {
    fn key_eq(&self, other: &Self) -> (same: bool) {
        bytes_eq(&self.key, &other.key) && self.location == other.location && self.addr
            == other.addr
    }
}

impl PeerKeyLocation {
    /// The peer with a key, at a position, reached at an address.
    pub fn new(key: [u8; 32], location: Location, addr: String) -> (p: Self)
        ensures
            p.key == key,
            p.location == location,
            p.addr == addr,
    {
        PeerKeyLocation { key, location, addr }
    }

    /// The same peer once more.
    pub fn duplicate(&self) -> (p: Self)
        ensures
            p == *self,
    {
        PeerKeyLocation { key: self.key, location: self.location, addr: self.addr.clone() }
    }
}

/// A peer at another position, under another key or at another address is another
/// peer.
pub proof fn peers_differ_in_any_part(a: PeerKeyLocation, b: PeerKeyLocation)
    ensures
        a.key@ != b.key@ ==> a@ != b@,
        a.location.bits != b.location.bits ==> a@ != b@,
        a.addr@ != b.addr@ ==> a@ != b@,
        a.key@ == b.key@ && a.location.bits == b.location.bits && a.addr@ == b.addr@ ==> a@ == b@,
{
}

} // verus!
