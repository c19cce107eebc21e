//! Random numbers.
use vstd::prelude::*;

verus! {

/// `rand::random` for a byte: any byte.
#[verifier::external_body]
pub(crate) fn random_byte() -> (b: u8) {
    rand::random()
}

/// `rand::random` for a machine word: any word.
#[verifier::external_body]
pub(crate) fn random_word() -> (n: usize) {
    rand::random()
}

/// So many bytes, any bytes.
pub(crate) fn random_bytes<const N: usize>() -> (bytes: [u8; N]) {
    let mut bytes = [0u8; N];
    let mut i: usize = 0;
    while i < N
        invariant
            i <= N,
        decreases N - i,
    {
        bytes[i] = random_byte();
        i += 1;
    }
    bytes
}

} // verus!
