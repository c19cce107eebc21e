//! Explicit removal of contracts from local storage.
use crate::contract::key::ContractKey;
use vstd::prelude::*;

verus! {

/// What a deletion came to.
#[derive(Clone, Copy, Debug)]
pub struct DeletionResult {
    pub key: ContractKey,
    /// Whether the contract was there.
    pub existed: bool,
    pub bytes_freed: u64,
}

/// Deletes contracts from all storage layers, in this order:
/// 1. the hosting cache, so that it is no longer served;
/// 2. the subscribers' notifications, so that no more updates are sent;
/// 3. the state in persistent storage;
/// 4. the code in the contract store;
/// 5. the hosting metadata in persistent storage.
pub struct ContractDeletion;

/// The key of all zeros, which no contract has.
pub open spec fn is_null_key(key: ContractKey) -> bool {
    forall|i: int| 0 <= i < key@.len() ==> #[trigger] key@[i] == 0
}

impl ContractDeletion {
    /// Whether a contract may be deleted: any but one with the null key.
    pub fn validate_deletion(key: &ContractKey) -> (r: Result<(), String>)
        ensures
            r is Ok <==> !is_null_key(*key),
            r is Err ==> r->Err_0@ == "Cannot delete null contract key"@,
    {
        let mut i: usize = 0;
        while i < 32
            invariant
                i <= 32,
                key@.len() == 32,
                key@ == key.instance.bytes@,
                forall|j: int| 0 <= j < i ==> #[trigger] key@[j] == 0,
            decreases 32 - i,
        {
            if key.instance.bytes[i] != 0 {
                assert(key@[i as int] != 0);
                return Ok(());
            }
            i += 1;
        }
        Err("Cannot delete null contract key".to_owned())
    }
}

/// A key with one byte that is not zero is not the null key, whatever the hash of its
/// code; one whose bytes are all zero is.
pub proof fn null_keys_are_all_zero(key: ContractKey, code: [u8; 32], i: int)
    requires
        0 <= i < 32,
    ensures
        key.instance.bytes@[i] != 0 ==> !is_null_key(key),
        key.instance.bytes@ == Seq::new(32, |j: int| 0u8) ==> is_null_key(key),
        is_null_key(key) == is_null_key(ContractKey { code, ..key }),
{
    if is_null_key(key) {
        assert(key@[i] == 0);
        assert(is_null_key(ContractKey { code, ..key }));
    }
    if is_null_key(ContractKey { code, ..key }) {
        assert forall|j: int| 0 <= j < key@.len() implies #[trigger] key@[j] == 0 by {
            assert(ContractKey { code, ..key }@[j] == 0);
        }
    }
}

} // verus!
