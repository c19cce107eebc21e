//! The contracts that have a PUT in flight, held in a `dashmap::DashSet`.
use crate::contract::key::ContractKey;
use dashmap::DashSet;
use vstd::prelude::*;

verus! {

/// `dashmap::DashSet`, a hash set in shards.
#[verifier::external_type_specification]
#[verifier::external_body]
#[verifier::reject_recursive_types(K)]
#[verifier::reject_recursive_types(S)]
pub struct ExDashSet<K, S>(dashmap::DashSet<K, S>);

/// The identifiers that a set holds.
pub uninterp spec fn set_ids(set: DashSet<[u8; 32]>) -> Set<Seq<u8>>;

/// `DashSet::new`: the set holds nothing.
#[verifier::external_body]
fn new_set() -> (set: DashSet<[u8; 32]>)
    ensures
        set_ids(set) == Set::<Seq<u8>>::empty(),
{
    DashSet::new()
}

/// `DashSet::contains`: whether the set holds the identifier.
#[verifier::external_body]
fn set_contains(set: &DashSet<[u8; 32]>, id: &[u8; 32]) -> (b: bool)
    ensures
        b == set_ids(*set).contains(id@),
{
    set.contains(id)
}

/// `DashSet::insert`: the set holds the identifier besides what it held; the
/// result tells whether it is new.
#[verifier::external_body]
fn set_insert(set: &mut DashSet<[u8; 32]>, id: [u8; 32]) -> (is_new: bool)
    ensures
        set_ids(*final(set)) == set_ids(*old(set)).insert(id@),
        is_new == !set_ids(*old(set)).contains(id@),
{
    set.insert(id)
}

/// `DashSet::remove`: the set holds what it held but for the identifier; the
/// result tells whether it was there.
#[verifier::external_body]
fn set_remove(set: &mut DashSet<[u8; 32]>, id: &[u8; 32]) -> (was_there: bool)
    ensures
        set_ids(*final(set)) == set_ids(*old(set)).remove(id@),
        was_there == set_ids(*old(set)).contains(id@),
{
    set.remove(id).is_some()
}

/// The contracts that have a PUT in flight.
pub struct PendingPuts {
    set: DashSet<[u8; 32]>,
}

impl View for PendingPuts {
    type V = Set<Seq<u8>>;

    closed spec fn view(&self) -> Set<Seq<u8>> {
        set_ids(self.set)
    }
}

impl PendingPuts {
    /// Nothing is in flight.
    pub fn new() -> (p: Self)
        ensures
            p@ == Set::<Seq<u8>>::empty(),
    {
        PendingPuts { set: new_set() }
    }

    /// Whether a PUT of the contract is in flight.
    pub fn contains(&self, key: &ContractKey) -> (b: bool)
        ensures
            b == self@.contains(key@),
    {
        set_contains(&self.set, &key.instance.bytes)
    }

    /// Notes that a PUT of the contract is in flight; tells whether it was not before.
    pub fn insert(&mut self, key: &ContractKey) -> (is_new: bool)
        ensures
            final(self)@ == old(self)@.insert(key@),
            is_new == !old(self)@.contains(key@),
    {
        set_insert(&mut self.set, key.instance.bytes)
    }

    /// Notes that the PUT of the contract is over; tells whether there was one.
    pub fn remove(&mut self, key: &ContractKey) -> (was_there: bool)
        ensures
            final(self)@ == old(self)@.remove(key@),
            was_there == old(self)@.contains(key@),
    {
        set_remove(&mut self.set, &key.instance.bytes)
    }
}

} // verus!
