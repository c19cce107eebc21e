//! Keys by which contracts are known.
use crate::linear_map::{bytes_eq, KeyEq};
use vstd::prelude::*;

verus! {

/// The size of a contract identifier in bytes.
pub const CONTRACT_KEY_SIZE: usize = 32;

/// The identifier of a contract instance: a hash of its code and parameters.
#[derive(Clone, Copy, Debug)]
pub struct ContractInstanceId {
    pub bytes: [u8; 32],
}

impl View for ContractInstanceId {
    type V = Seq<u8>;

    open spec fn view(&self) -> Seq<u8> {
        self.bytes@
    }
}

impl KeyEq for ContractInstanceId {
    fn key_eq(&self, other: &Self) -> (same: bool) {
        bytes_eq(&self.bytes, &other.bytes)
    }
}

impl ContractInstanceId {
    /// The identifier with the given bytes.
    pub fn new(bytes: [u8; 32]) -> (id: Self)
        ensures
            id@ == bytes@,
    {
        ContractInstanceId { bytes }
    }
}

/// A contract instance together with the hash of its code. Two keys are the
/// same key if their instances are.
#[derive(Clone, Copy, Debug)]
pub struct ContractKey {
    pub instance: ContractInstanceId,
    pub code: [u8; 32],
}

impl View for ContractKey {
    type V = Seq<u8>;

    open spec fn view(&self) -> Seq<u8> {
        self.instance@
    }
}

impl KeyEq for ContractKey {
    fn key_eq(&self, other: &Self) -> (same: bool) {
        self.instance.key_eq(&other.instance)
    }
}

impl ContractKey {
    /// The key of an instance whose code has the given hash.
    pub fn from_id_and_code(instance: ContractInstanceId, code: [u8; 32]) -> (key: Self)
        ensures
            key.instance == instance,
            key.code == code,
            key@ == instance@,
    {
        ContractKey { instance, code }
    }

    /// The instance that the key names.
    pub fn id(&self) -> (id: &ContractInstanceId)
        ensures
            *id == self.instance,
            id@ == self@,
    {
        &self.instance
    }
}

/// Keys of the same instance are the same key, whatever their code; keys that differ
/// in a byte of the instance are not.
pub proof fn instances_make_keys(a: ContractKey, b: ContractKey, i: int)
    requires
        0 <= i < CONTRACT_KEY_SIZE,
    ensures
        a.instance.bytes == b.instance.bytes ==> a@ == b@,
        a.instance.bytes@[i] != b.instance.bytes@[i] ==> a@ != b@,
        a@.len() == 32,
{
    if a@ == b@ {
        assert(a@[i] == b@[i]);
    }
}

} // verus!
