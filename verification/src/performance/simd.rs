//! Cryptography on batches.
use crate::clock::Stopwatch;
use crate::counters::{add_wrapping, counted, wrapped_sum};
use crate::crypto::primitives::{
    aes_gcm_decrypt, aes_gcm_encrypt, aes_gcm_opened, aes_gcm_sealed, blake3_digest, blake3_hash,
    ed25519_valid, ed25519_verify, hkdf_expand, hkdf_sha256, MAX_HKDF_BYTES, MAX_MESSAGE_BYTES,
    TAG_BYTES,
};
use crate::ratio::Ratio;
use crate::time::Duration;
use vstd::prelude::*;

verus! {

/// The longest message for which encryption is tried, in bytes.
pub const P_MAX: u64 = 0x10_0000_0000;

/// The longest ciphertext for which decryption is tried, in bytes.
pub const C_MAX: u64 = 0x10_0000_0020;

/// What can go wrong.
#[derive(Clone, Copy, Debug, PartialEq, Eq, Structural)]
pub enum SimdError {
    MessageNonceMismatch,
    CiphertextNonceMismatch,
    SignatureMismatch,
    LengthMismatch,
    EncryptionFailed,
    DecryptionFailed,
    KeyDerivationFailed,
}

impl SimdError {
    /// What the error says.
    pub open spec fn text(self) -> Seq<char> {
        match self {
            SimdError::MessageNonceMismatch => "Message and nonce count mismatch"@,
            SimdError::CiphertextNonceMismatch => "Ciphertext and nonce count mismatch"@,
            SimdError::SignatureMismatch => "Message, signature, and key count mismatch"@,
            SimdError::LengthMismatch => "Buffer length mismatch"@,
            SimdError::EncryptionFailed => "Encryption failed"@,
            SimdError::DecryptionFailed => "Decryption failed"@,
            SimdError::KeyDerivationFailed => "HKDF expansion failed"@,
        }
    }

    /// What the error says.
    pub fn message(&self) -> (s: &'static str)
        ensures
            s@ == self.text(),
    {
        match self {
            SimdError::MessageNonceMismatch => "Message and nonce count mismatch",
            SimdError::CiphertextNonceMismatch => "Ciphertext and nonce count mismatch",
            SimdError::SignatureMismatch => "Message, signature, and key count mismatch",
            SimdError::LengthMismatch => "Buffer length mismatch",
            SimdError::EncryptionFailed => "Encryption failed",
            SimdError::DecryptionFailed => "Decryption failed",
            SimdError::KeyDerivationFailed => "HKDF expansion failed",
        }
    }
}

/// What was done, and how long it took.
#[derive(Clone, Copy, Debug, PartialEq, Eq, Structural)]
pub struct SimdStats {
    pub total_operations: u64,
    pub total_time_ns: u64,
    pub simd_operations: u64,
    pub fallback_operations: u64,
    pub hash_operations: u64,
    pub hash_time_ns: u64,
    pub simd_hash_operations: u64,
    pub fallback_hash_operations: u64,
    pub signature_verifications: u64,
    pub signature_time_ns: u64,
    pub key_derivations: u64,
    pub key_derivation_time_ns: u64,
}

impl SimdStats {
    /// Nothing was done.
    pub open spec fn none() -> SimdStats {
        SimdStats {
            total_operations: 0,
            total_time_ns: 0,
            simd_operations: 0,
            fallback_operations: 0,
            hash_operations: 0,
            hash_time_ns: 0,
            simd_hash_operations: 0,
            fallback_hash_operations: 0,
            signature_verifications: 0,
            signature_time_ns: 0,
            key_derivations: 0,
            key_derivation_time_ns: 0,
        }
    }

    /// One batch more, accelerated or not.
    pub open spec fn with_cipher_batch(self, accelerated: bool) -> SimdStats {
        if accelerated {
            SimdStats { simd_operations: wrapped_sum(self.simd_operations, 1), ..self }
        } else {
            SimdStats { fallback_operations: wrapped_sum(self.fallback_operations, 1), ..self }
        }
    }

    /// A batch of messages was given up: it counts where it was not accelerated.
    pub open spec fn with_failed_batch(self, accelerated: bool) -> SimdStats {
        if accelerated {
            self
        } else {
            self.with_cipher_batch(false)
        }
    }

    /// So many messages more, that took so long.
    pub open spec fn with_messages(self, count: nat, nanos: u64) -> SimdStats {
        SimdStats {
            total_operations: wrapped_sum(self.total_operations, counted(count)),
            total_time_ns: wrapped_sum(self.total_time_ns, nanos),
            ..self
        }
    }

    /// One batch of hashes more, accelerated or not, of so many inputs, that took
    /// so long.
    pub open spec fn with_hashes(self, accelerated: bool, count: nat, nanos: u64) -> SimdStats {
        let batch = if accelerated {
            SimdStats { simd_hash_operations: wrapped_sum(self.simd_hash_operations, 1), ..self }
        } else {
            SimdStats {
                fallback_hash_operations: wrapped_sum(self.fallback_hash_operations, 1),
                ..self
            }
        };
        SimdStats {
            hash_operations: wrapped_sum(self.hash_operations, counted(count)),
            hash_time_ns: wrapped_sum(self.hash_time_ns, nanos),
            ..batch
        }
    }

    /// So many keys more, that took so long.
    pub open spec fn with_keys(self, count: nat, nanos: u64) -> SimdStats {
        SimdStats {
            key_derivations: wrapped_sum(self.key_derivations, counted(count)),
            key_derivation_time_ns: wrapped_sum(self.key_derivation_time_ns, nanos),
            ..self
        }
    }

    /// So many signatures more, that took so long.
    pub open spec fn with_verifications(self, count: nat, nanos: u64) -> SimdStats {
        SimdStats {
            signature_verifications: wrapped_sum(self.signature_verifications, counted(count)),
            signature_time_ns: wrapped_sum(self.signature_time_ns, nanos),
            ..self
        }
    }

    /// Messages per second over a span.
    pub open spec fn ops_per_second_spec(self, duration: Duration) -> Ratio {
        Ratio::of_spec(self.total_operations * 1_000_000_000, duration.nanos as int)
    }

    /// Messages per second over a span.
    pub fn ops_per_second(&self, duration: Duration) -> (r: Ratio)
        ensures
            r == self.ops_per_second_spec(duration),
            r == Ratio::of_spec(self.total_operations * 1_000_000_000, duration.nanos as int),
    {
        Ratio::of(self.total_operations as u128 * 1_000_000_000, duration.nanos)
    }

    /// Accelerated batches per batch.
    pub open spec fn simd_utilization_spec(self) -> Ratio {
        Ratio::of_spec(self.simd_operations as int, self.simd_operations + self.fallback_operations)
    }

    /// Accelerated batches per batch.
    pub fn simd_utilization(&self) -> (r: Ratio)
        ensures
            r == self.simd_utilization_spec(),
            r == Ratio::of_spec(
                self.simd_operations as int,
                self.simd_operations + self.fallback_operations,
            ),
    {
        Ratio::of(
            self.simd_operations as u128,
            self.simd_operations as u128 + self.fallback_operations as u128,
        )
    }

    /// Nanoseconds per message.
    pub open spec fn avg_operation_latency_ns_spec(self) -> Ratio {
        Ratio::of_spec(self.total_time_ns as int, self.total_operations as int)
    }

    /// Nanoseconds per message.
    pub fn avg_operation_latency_ns(&self) -> (r: Ratio)
        ensures
            r == self.avg_operation_latency_ns_spec(),
            r == Ratio::of_spec(self.total_time_ns as int, self.total_operations as int),
    {
        Ratio::of(self.total_time_ns as u128, self.total_operations as u128)
    }
}

impl Default for SimdStats {
    fn default() -> (s: Self)
        ensures
            s == SimdStats::none(),
    {
        SimdStats {
            total_operations: 0,
            total_time_ns: 0,
            simd_operations: 0,
            fallback_operations: 0,
            hash_operations: 0,
            hash_time_ns: 0,
            simd_hash_operations: 0,
            fallback_hash_operations: 0,
            signature_verifications: 0,
            signature_time_ns: 0,
            key_derivations: 0,
            key_derivation_time_ns: 0,
        }
    }
}

/// A message that can be encrypted.
pub open spec fn encryptable(m: Seq<u8>) -> bool {
    m.len() <= MAX_MESSAGE_BYTES
}

/// A message whose encryption either works or is refused: the few lengths just
/// below the limit, for which the cipher runs out of counters, are left out.
pub open spec fn message_length_ok(len: nat) -> bool {
    len <= MAX_MESSAGE_BYTES || len > P_MAX
}

/// A ciphertext whose decryption either works or is refused.
pub open spec fn ciphertext_length_ok(len: nat) -> bool {
    len <= MAX_MESSAGE_BYTES + TAG_BYTES || len > C_MAX
}

/// What decryption makes of a ciphertext, if anything.
pub open spec fn opened(key: Seq<u8>, nonce: Seq<u8>, c: Seq<u8>) -> Option<Seq<u8>> {
    if c.len() > C_MAX {
        None
    } else {
        aes_gcm_opened(key, nonce, c)
    }
}

/// Each ciphertext is its message sealed with the key and its nonce, and is opened
/// to that message with them.
pub open spec fn encrypted(
    key: Seq<u8>,
    nonces: Seq<[u8; 12]>,
    messages: Seq<Vec<u8>>,
    ciphertexts: Seq<Vec<u8>>,
) -> bool {
    &&& ciphertexts.len() == messages.len()
    &&& forall|i: int|
        0 <= i < messages.len() ==> {
            let c = (#[trigger] ciphertexts[i])@;
            &&& c == aes_gcm_sealed(key, nonces[i]@, messages[i]@)
            &&& c.len() == messages[i]@.len() + TAG_BYTES
            &&& aes_gcm_opened(key, nonces[i]@, c) == Some(messages[i]@)
        }
}

/// Each ciphertext can be opened with the key and its nonce.
pub open spec fn decryptable(
    key: Seq<u8>,
    nonces: Seq<[u8; 12]>,
    ciphertexts: Seq<Vec<u8>>,
) -> bool {
    forall|i: int|
        0 <= i < ciphertexts.len() ==> opened(
            key,
            nonces[i]@,
            (#[trigger] ciphertexts[i])@,
        ) is Some
}

/// Each message is its ciphertext opened with the key and its nonce.
pub open spec fn decrypted(
    key: Seq<u8>,
    nonces: Seq<[u8; 12]>,
    ciphertexts: Seq<Vec<u8>>,
    messages: Seq<Vec<u8>>,
) -> bool {
    &&& messages.len() == ciphertexts.len()
    &&& forall|i: int|
        0 <= i < ciphertexts.len() ==> Some((#[trigger] messages[i])@) == opened(
            key,
            nonces[i]@,
            ciphertexts[i]@,
        )
}

/// The exclusive or of two byte strings.
pub open spec fn xor_bytes(a: Seq<u8>, b: Seq<u8>) -> Seq<u8> {
    Seq::new(a.len(), |i: int| a[i] ^ b[i])
}

/// Cryptography on batches, accelerated where the processor can.
#[derive(Clone, Copy, Debug, PartialEq, Eq, Structural)]
pub struct SimdCrypto {
    pub stats: SimdStats,
    pub aes_accelerated: bool,
    pub hash_accelerated: bool,
}

impl SimdCrypto {
    /// Nothing done yet, with what the processor can.
    pub fn new(aes_accelerated: bool, hash_accelerated: bool) -> (c: Self)
        ensures
            c.stats == SimdStats::none(),
            c.aes_accelerated == aes_accelerated,
            c.hash_accelerated == hash_accelerated,
    {
        SimdCrypto { stats: SimdStats::default(), aes_accelerated, hash_accelerated }
    }

    fn count_cipher_batch(&mut self)
        ensures
            final(self).aes_accelerated == old(self).aes_accelerated,
            final(self).hash_accelerated == old(self).hash_accelerated,
            final(self).stats == old(self).stats.with_cipher_batch(old(self).aes_accelerated),
    {
        if self.aes_accelerated {
            self.stats.simd_operations = add_wrapping(self.stats.simd_operations, 1);
        } else {
            self.stats.fallback_operations = add_wrapping(self.stats.fallback_operations, 1);
        }
    }

    /// Counts a batch of messages that was given up.
    fn count_failed_batch(&mut self)
        ensures
            final(self).aes_accelerated == old(self).aes_accelerated,
            final(self).hash_accelerated == old(self).hash_accelerated,
            final(self).stats == old(self).stats.with_failed_batch(old(self).aes_accelerated),
    {
        if !self.aes_accelerated {
            self.count_cipher_batch();
        }
    }

    fn count_messages(&mut self, count: usize, nanos: u64)
        ensures
            final(self).aes_accelerated == old(self).aes_accelerated,
            final(self).hash_accelerated == old(self).hash_accelerated,
            final(self).stats == old(self).stats.with_messages(count as nat, nanos),
    {
        self.stats.total_operations = add_wrapping(self.stats.total_operations, count as u64);
        self.stats.total_time_ns = add_wrapping(self.stats.total_time_ns, nanos);
    }

    /// Encrypts messages with a key, each with its nonce.
    pub fn encrypt_batch_aes_gcm(
        &mut self,
        messages: &[Vec<u8>],
        key: &[u8; 32],
        nonces: &[[u8; 12]],
    ) -> (r: Result<Vec<Vec<u8>>, SimdError>)
        requires
            forall|i: int|
                0 <= i < messages@.len() ==> message_length_ok((#[trigger] messages@[i])@.len()),
        ensures
            final(self).aes_accelerated == old(self).aes_accelerated,
            final(self).hash_accelerated == old(self).hash_accelerated,
            messages@.len() != nonces@.len() ==> {
                &&& r == Err::<Vec<Vec<u8>>, SimdError>(SimdError::MessageNonceMismatch)
                &&& final(self).stats == old(self).stats
            },
            messages@.len() == nonces@.len() ==> {
                &&& r is Ok <==> forall|i: int|
                    0 <= i < messages@.len() ==> encryptable((#[trigger] messages@[i])@)
                &&& r is Err ==> {
                    &&& r->Err_0 == SimdError::EncryptionFailed
                    &&& final(self).stats == old(self).stats.with_failed_batch(
                        old(self).aes_accelerated,
                    )
                }
                &&& r is Ok ==> {
                    &&& encrypted(key@, nonces@, messages@, r->Ok_0@)
                    &&& exists|nanos: u64|
                        final(self).stats == #[trigger] old(self).stats.with_cipher_batch(
                            old(self).aes_accelerated,
                        ).with_messages(messages@.len(), nanos)
                }
            },
    {
        let watch = Stopwatch::start();
        if messages.len() != nonces.len() {
            return Err(SimdError::MessageNonceMismatch);
        }
        let mut results: Vec<Vec<u8>> = Vec::new();
        let mut i: usize = 0;
        while i < messages.len()
            invariant
                i <= messages@.len(),
                messages@.len() == nonces@.len(),
                results@.len() == i,
                *self == *old(self),
                forall|j: int|
                    0 <= j < messages@.len() ==> message_length_ok(
                        (#[trigger] messages@[j])@.len(),
                    ),
                forall|j: int| 0 <= j < i ==> encryptable((#[trigger] messages@[j])@),
                forall|j: int|
                    0 <= j < i ==> {
                        let c = (#[trigger] results@[j])@;
                        &&& c == aes_gcm_sealed(key@, nonces@[j]@, messages@[j]@)
                        &&& c.len() == messages@[j]@.len() + TAG_BYTES
                        &&& aes_gcm_opened(key@, nonces@[j]@, c) == Some(messages@[j]@)
                    },
            decreases messages@.len() - i,
        {
            assert(message_length_ok(messages@[i as int]@.len()));
            if messages[i].len() as u64 > P_MAX {
                assert(!encryptable(messages@[i as int]@));
                self.count_failed_batch();
                return Err(SimdError::EncryptionFailed);
            }
            results.push(aes_gcm_encrypt(key, &nonces[i], messages[i].as_slice()));
            i += 1;
        }
        self.count_cipher_batch();
        let nanos: u64 = watch.elapsed_nanos();
        let ghost counted_batch = self.stats;
        self.count_messages(messages.len(), nanos);
        assert(self.stats == counted_batch.with_messages(messages@.len(), nanos));
        Ok(results)
    }

    /// Decrypts ciphertexts with a key, each with its nonce; an error where one of
    /// them is not what that key and nonce make.
    pub fn decrypt_batch_aes_gcm(
        &mut self,
        ciphertexts: &[Vec<u8>],
        key: &[u8; 32],
        nonces: &[[u8; 12]],
    ) -> (r: Result<Vec<Vec<u8>>, SimdError>)
        requires
            forall|i: int|
                0 <= i < ciphertexts@.len() ==> ciphertext_length_ok(
                    (#[trigger] ciphertexts@[i])@.len(),
                ),
        ensures
            final(self).aes_accelerated == old(self).aes_accelerated,
            final(self).hash_accelerated == old(self).hash_accelerated,
            ciphertexts@.len() != nonces@.len() ==> {
                &&& r == Err::<Vec<Vec<u8>>, SimdError>(SimdError::CiphertextNonceMismatch)
                &&& final(self).stats == old(self).stats
            },
            ciphertexts@.len() == nonces@.len() ==> {
                &&& r is Ok <==> decryptable(key@, nonces@, ciphertexts@)
                &&& r is Err ==> {
                    &&& r->Err_0 == SimdError::DecryptionFailed
                    &&& final(self).stats == old(self).stats.with_failed_batch(
                        old(self).aes_accelerated,
                    )
                }
                &&& r is Ok ==> {
                    &&& decrypted(key@, nonces@, ciphertexts@, r->Ok_0@)
                    &&& exists|nanos: u64|
                        final(self).stats == #[trigger] old(self).stats.with_cipher_batch(
                            old(self).aes_accelerated,
                        ).with_messages(ciphertexts@.len(), nanos)
                }
            },
    {
        let watch = Stopwatch::start();
        if ciphertexts.len() != nonces.len() {
            return Err(SimdError::CiphertextNonceMismatch);
        }
        let mut results: Vec<Vec<u8>> = Vec::new();
        let mut i: usize = 0;
        while i < ciphertexts.len()
            invariant
                i <= ciphertexts@.len(),
                ciphertexts@.len() == nonces@.len(),
                results@.len() == i,
                *self == *old(self),
                forall|j: int|
                    0 <= j < ciphertexts@.len() ==> ciphertext_length_ok(
                        (#[trigger] ciphertexts@[j])@.len(),
                    ),
                forall|j: int|
                    0 <= j < i ==> opened(
                        key@,
                        nonces@[j]@,
                        (#[trigger] ciphertexts@[j])@,
                    ) is Some,
                forall|j: int|
                    0 <= j < i ==> Some((#[trigger] results@[j])@) == opened(
                        key@,
                        nonces@[j]@,
                        ciphertexts@[j]@,
                    ),
            decreases ciphertexts@.len() - i,
        {
            assert(ciphertext_length_ok(ciphertexts@[i as int]@.len()));
            if ciphertexts[i].len() as u64 > C_MAX {
                assert(opened(key@, nonces@[i as int]@, ciphertexts@[i as int]@) is None);
                self.count_failed_batch();
                return Err(SimdError::DecryptionFailed);
            }
            match aes_gcm_decrypt(key, &nonces[i], ciphertexts[i].as_slice()) {
                Some(m) => {
                    results.push(m);
                },
                None => {
                    assert(opened(key@, nonces@[i as int]@, ciphertexts@[i as int]@) is None);
                    self.count_failed_batch();
                    return Err(SimdError::DecryptionFailed);
                },
            }
            i += 1;
        }
        self.count_cipher_batch();
        let nanos: u64 = watch.elapsed_nanos();
        let ghost counted_batch = self.stats;
        self.count_messages(ciphertexts.len(), nanos);
        assert(self.stats == counted_batch.with_messages(ciphertexts@.len(), nanos));
        Ok(results)
    }

    /// The BLAKE3 digests of inputs.
    pub fn hash_batch_blake3(&mut self, inputs: &[Vec<u8>]) -> (digests: Vec<[u8; 32]>)
        ensures
            final(self).aes_accelerated == old(self).aes_accelerated,
            final(self).hash_accelerated == old(self).hash_accelerated,
            digests@.len() == inputs@.len(),
            forall|i: int|
                0 <= i < inputs@.len() ==> (#[trigger] digests@[i])@ == blake3_digest(
                    inputs@[i]@,
                ),
            exists|nanos: u64|
                final(self).stats == #[trigger] old(self).stats.with_hashes(
                    old(self).hash_accelerated,
                    inputs@.len(),
                    nanos,
                ),
    {
        let watch = Stopwatch::start();
        let mut digests: Vec<[u8; 32]> = Vec::new();
        let mut i: usize = 0;
        while i < inputs.len()
            invariant
                i <= inputs@.len(),
                digests@.len() == i,
                *self == *old(self),
                forall|j: int|
                    0 <= j < i ==> (#[trigger] digests@[j])@ == blake3_digest(inputs@[j]@),
            decreases inputs@.len() - i,
        {
            digests.push(blake3_hash(inputs[i].as_slice()));
            i += 1;
        }
        let ghost before = self.stats;
        if self.hash_accelerated {
            self.stats.simd_hash_operations = add_wrapping(self.stats.simd_hash_operations, 1);
        } else {
            self.stats.fallback_hash_operations =
            add_wrapping(self.stats.fallback_hash_operations, 1);
        }
        let nanos: u64 = watch.elapsed_nanos();
        self.stats.hash_operations =
        add_wrapping(self.stats.hash_operations, inputs.len() as u64);
        self.stats.hash_time_ns = add_wrapping(self.stats.hash_time_ns, nanos);
        assert(self.stats == before.with_hashes(self.hash_accelerated, inputs@.len(), nanos));
        digests
    }

    /// Keys derived from a master key, one for each salt.
    pub fn derive_keys_batch(
        &mut self,
        master_key: &[u8; 32],
        salts: &[[u8; 32]],
        info: &[u8],
        output_len: usize,
    ) -> (r: Result<Vec<Vec<u8>>, SimdError>)
        requires
            output_len <= isize::MAX,
        ensures
            final(self).aes_accelerated == old(self).aes_accelerated,
            final(self).hash_accelerated == old(self).hash_accelerated,
            r is Ok <==> output_len <= MAX_HKDF_BYTES || salts@.len() == 0,
            r is Err ==> {
                &&& r->Err_0 == SimdError::KeyDerivationFailed
                &&& final(self).stats == old(self).stats
            },
            r is Ok ==> {
                &&& r->Ok_0@.len() == salts@.len()
                &&& forall|i: int|
                    0 <= i < salts@.len() ==> {
                        let k = (#[trigger] r->Ok_0@[i])@;
                        &&& k.len() == output_len
                        &&& k == hkdf_sha256(
                            Some(salts@[i]@),
                            master_key@,
                            info@,
                            output_len as nat,
                        )
                    }
                &&& exists|nanos: u64|
                    final(self).stats == #[trigger] old(self).stats.with_keys(salts@.len(), nanos)
            },
    {
        let watch = Stopwatch::start();
        let mut keys: Vec<Vec<u8>> = Vec::new();
        let mut i: usize = 0;
        while i < salts.len()
            invariant
                i <= salts@.len(),
                keys@.len() == i,
                *self == *old(self),
                output_len <= isize::MAX,
                i > 0 ==> output_len <= MAX_HKDF_BYTES,
                forall|j: int|
                    0 <= j < i ==> {
                        let k = (#[trigger] keys@[j])@;
                        &&& k.len() == output_len
                        &&& k == hkdf_sha256(
                            Some(salts@[j]@),
                            master_key@,
                            info@,
                            output_len as nat,
                        )
                    },
            decreases salts@.len() - i,
        {
            match hkdf_expand(Some(&salts[i]), master_key, info, output_len) {
                Some(k) => {
                    keys.push(k);
                },
                None => {
                    return Err(SimdError::KeyDerivationFailed);
                },
            }
            i += 1;
        }
        let nanos: u64 = watch.elapsed_nanos();
        let ghost before = self.stats;
        self.stats.key_derivations = add_wrapping(self.stats.key_derivations, salts.len() as u64);
        self.stats.key_derivation_time_ns = add_wrapping(self.stats.key_derivation_time_ns, nanos);
        assert(self.stats == before.with_keys(salts@.len(), nanos));
        Ok(keys)
    }

    /// Whether each message has its signature under its public key.
    pub fn verify_signatures_batch(
        &mut self,
        messages: &[Vec<u8>],
        signatures: &[[u8; 64]],
        public_keys: &[[u8; 32]],
    ) -> (r: Result<Vec<bool>, SimdError>)
        ensures
            final(self).aes_accelerated == old(self).aes_accelerated,
            final(self).hash_accelerated == old(self).hash_accelerated,
            r is Ok <==> messages@.len() == signatures@.len() && messages@.len()
                == public_keys@.len(),
            r is Err ==> {
                &&& r->Err_0 == SimdError::SignatureMismatch
                &&& final(self).stats == old(self).stats
            },
            r is Ok ==> {
                &&& r->Ok_0@.len() == messages@.len()
                &&& forall|i: int|
                    0 <= i < messages@.len() ==> #[trigger] r->Ok_0@[i] == ed25519_valid(
                        public_keys@[i]@,
                        messages@[i]@,
                        signatures@[i]@,
                    )
                &&& exists|nanos: u64|
                    final(self).stats == #[trigger] old(self).stats.with_verifications(
                        messages@.len(),
                        nanos,
                    )
            },
    {
        let watch = Stopwatch::start();
        if messages.len() != signatures.len() || messages.len() != public_keys.len() {
            return Err(SimdError::SignatureMismatch);
        }
        let mut results: Vec<bool> = Vec::new();
        let mut i: usize = 0;
        while i < messages.len()
            invariant
                i <= messages@.len(),
                messages@.len() == signatures@.len(),
                messages@.len() == public_keys@.len(),
                results@.len() == i,
                *self == *old(self),
                forall|j: int|
                    0 <= j < i ==> #[trigger] results@[j] == ed25519_valid(
                        public_keys@[j]@,
                        messages@[j]@,
                        signatures@[j]@,
                    ),
            decreases messages@.len() - i,
        {
            results.push(
                ed25519_verify(&public_keys[i], messages[i].as_slice(), &signatures[i]),
            );
            i += 1;
        }
        let nanos: u64 = watch.elapsed_nanos();
        let ghost before = self.stats;
        self.stats.signature_verifications =
        add_wrapping(self.stats.signature_verifications, messages.len() as u64);
        self.stats.signature_time_ns = add_wrapping(self.stats.signature_time_ns, nanos);
        assert(self.stats == before.with_verifications(messages@.len(), nanos));
        Ok(results)
    }

    /// The exclusive or of two buffers of one length.
    pub fn xor_parallel(&mut self, a: &[u8], b: &[u8]) -> (r: Result<Vec<u8>, SimdError>)
        ensures
            final(self).aes_accelerated == old(self).aes_accelerated,
            final(self).hash_accelerated == old(self).hash_accelerated,
            r is Ok <==> a@.len() == b@.len(),
            r is Err ==> {
                &&& r->Err_0 == SimdError::LengthMismatch
                &&& final(self).stats == old(self).stats
            },
            r is Ok ==> {
                &&& r->Ok_0@ == xor_bytes(a@, b@)
                &&& final(self).stats == old(self).stats.with_cipher_batch(true)
            },
    {
        if a.len() != b.len() {
            return Err(SimdError::LengthMismatch);
        }
        let mut result: Vec<u8> = Vec::new();
        let mut i: usize = 0;
        while i < a.len()
            invariant
                i <= a@.len(),
                a@.len() == b@.len(),
                *self == *old(self),
                result@.len() == i,
                forall|j: int| 0 <= j < i ==> #[trigger] result@[j] == a@[j] ^ b@[j],
            decreases a@.len() - i,
        {
            result.push(a[i] ^ b[i]);
            i += 1;
        }
        assert(result@ =~= xor_bytes(a@, b@));
        self.stats.simd_operations = add_wrapping(self.stats.simd_operations, 1);
        Ok(result)
    }

    /// What was done so far.
    pub fn get_stats(&self) -> (s: SimdStats)
        ensures
            s == self.stats,
    {
        self.stats
    }
}

/// What a batch was encrypted to is decrypted to that batch by the same key and
/// nonces: it can be handed to decryption, which succeeds and gives the messages back.
pub proof fn decryption_undoes_encryption(
    key: Seq<u8>,
    nonces: Seq<[u8; 12]>,
    messages: Seq<Vec<u8>>,
    ciphertexts: Seq<Vec<u8>>,
    plain: Seq<Vec<u8>>,
)
    requires
        forall|i: int| 0 <= i < messages.len() ==> encryptable((#[trigger] messages[i])@),
        encrypted(key, nonces, messages, ciphertexts),
    ensures
        ciphertexts.len() == messages.len(),
        forall|i: int|
            0 <= i < ciphertexts.len() ==> ciphertext_length_ok((#[trigger] ciphertexts[i])@.len()),
        decryptable(key, nonces, ciphertexts),
        decrypted(key, nonces, ciphertexts, plain) ==> {
            &&& plain.len() == messages.len()
            &&& forall|i: int| 0 <= i < plain.len() ==> (#[trigger] plain[i])@ == messages[i]@
        },
{
    assert forall|i: int| 0 <= i < ciphertexts.len() implies opened(
        key,
        nonces[i]@,
        (#[trigger] ciphertexts[i])@,
    ) == Some(messages[i]@) && ciphertext_length_ok(ciphertexts[i]@.len()) by {
        assert(encryptable(messages[i]@));
    }
    if decrypted(key, nonces, ciphertexts, plain) {
        assert forall|i: int| 0 <= i < plain.len() implies (#[trigger] plain[i])@
            == messages[i]@ by {
            assert(opened(key, nonces[i]@, ciphertexts[i]@) == Some(messages[i]@));
        }
    }
}

/// Exclusive or undoes itself.
pub proof fn xor_undoes_itself(a: Seq<u8>, b: Seq<u8>)
    requires
        a.len() == b.len(),
    ensures
        xor_bytes(xor_bytes(a, b), b) == a,
{
    assert forall|i: int| 0 <= i < a.len() implies xor_bytes(xor_bytes(a, b), b)[i] == a[i] by {
        let x = a[i];
        let y = b[i];
        assert((x ^ y) ^ y == x) by (bit_vector);
    }
    assert(xor_bytes(xor_bytes(a, b), b) =~= a);
}

/// Each error says something of its own.
pub proof fn errors_are_told_apart(a: SimdError, b: SimdError)
    ensures
        a.text() == b.text() ==> a == b,
        (a is MessageNonceMismatch || a is CiphertextNonceMismatch || a is SignatureMismatch)
            ==> a.text().subrange(a.text().len() - 14, a.text().len() as int) == "count mismatch"@,
        a is LengthMismatch ==> a.text().subrange(0, 13) == "Buffer length"@,
        a is EncryptionFailed ==> a.text().subrange(0, 10) == "Encryption"@,
        a is DecryptionFailed ==> a.text().subrange(0, 10) == "Decryption"@,
        a is KeyDerivationFailed ==> a.text().subrange(0, 4) == "HKDF"@,
        a is MessageNonceMismatch ==> a.text().subrange(0, 17) == "Message and nonce"@,
        a is CiphertextNonceMismatch ==> a.text().subrange(0, 20) == "Ciphertext and nonce"@,
        a is SignatureMismatch ==> a.text().subrange(0, 18) == "Message, signature"@,
{
    reveal_strlit("Message and nonce count mismatch");
    reveal_strlit("Ciphertext and nonce count mismatch");
    reveal_strlit("Message, signature, and key count mismatch");
    reveal_strlit("Buffer length mismatch");
    reveal_strlit("Encryption failed");
    reveal_strlit("Decryption failed");
    reveal_strlit("HKDF expansion failed");
    reveal_strlit("count mismatch");
    reveal_strlit("Buffer length");
    reveal_strlit("Encryption");
    reveal_strlit("Decryption");
    reveal_strlit("HKDF");
    reveal_strlit("Message and nonce");
    reveal_strlit("Ciphertext and nonce");
    reveal_strlit("Message, signature");
    assert("Message and nonce count mismatch"@.len() == 32);
    assert("Ciphertext and nonce count mismatch"@.len() == 35);
    assert("Message, signature, and key count mismatch"@.len() == 42);
    assert("Buffer length mismatch"@.len() == 22);
    assert("Encryption failed"@.len() == 17 && "Encryption failed"@[0] == 'E');
    assert("Decryption failed"@.len() == 17 && "Decryption failed"@[0] == 'D');
    assert("HKDF expansion failed"@.len() == 21);
}

/// A batch counts once, as accelerated or not, and not as both; giving up counts only
/// where it was not accelerated. No batch counts the messages or their time.
pub proof fn batches_are_accelerated_or_not(s: SimdStats, accelerated: bool)
    requires
        s.simd_operations < u64::MAX,
        s.fallback_operations < u64::MAX,
    ensures
        s.with_cipher_batch(accelerated).simd_operations == s.simd_operations + if accelerated {
            1int
        } else {
            0
        },
        s.with_cipher_batch(accelerated).fallback_operations == s.fallback_operations + if
            accelerated {
            0int
        } else {
            1
        },
        s.with_failed_batch(accelerated).simd_operations == s.simd_operations,
        s.with_failed_batch(accelerated).fallback_operations == s.fallback_operations + if
            accelerated {
            0int
        } else {
            1
        },
        s.with_cipher_batch(accelerated).total_operations == s.total_operations,
        s.with_cipher_batch(accelerated).total_time_ns == s.total_time_ns,
        s.with_cipher_batch(accelerated).hash_operations == s.hash_operations,
{
}

/// Messages, hashes, keys and signatures count under their own names, with their own
/// time, and leave what the others counted.
pub proof fn cryptography_is_counted_by_kind(
    s: SimdStats,
    accelerated: bool,
    count: nat,
    nanos: u64,
)
    requires
        s.total_operations + count <= u64::MAX,
        s.total_time_ns + nanos <= u64::MAX,
        s.hash_operations + count <= u64::MAX,
        s.hash_time_ns + nanos <= u64::MAX,
        s.simd_hash_operations < u64::MAX,
        s.fallback_hash_operations < u64::MAX,
        s.signature_verifications + count <= u64::MAX,
        s.signature_time_ns + nanos <= u64::MAX,
        s.key_derivations + count <= u64::MAX,
        s.key_derivation_time_ns + nanos <= u64::MAX,
    ensures
        s.with_messages(count, nanos).total_operations == s.total_operations + count,
        s.with_messages(count, nanos).total_time_ns == s.total_time_ns + nanos,
        (SimdStats {
            total_operations: s.total_operations,
            total_time_ns: s.total_time_ns,
            ..s.with_messages(count, nanos)
        }) == s,
        s.with_hashes(accelerated, count, nanos).hash_operations == s.hash_operations + count,
        s.with_hashes(accelerated, count, nanos).hash_time_ns == s.hash_time_ns + nanos,
        s.with_hashes(accelerated, count, nanos).simd_hash_operations == s.simd_hash_operations
            + if accelerated {
            1int
        } else {
            0
        },
        s.with_hashes(accelerated, count, nanos).fallback_hash_operations
            == s.fallback_hash_operations + if accelerated {
            0int
        } else {
            1
        },
        (SimdStats {
            hash_operations: s.hash_operations,
            hash_time_ns: s.hash_time_ns,
            simd_hash_operations: s.simd_hash_operations,
            fallback_hash_operations: s.fallback_hash_operations,
            ..s.with_hashes(accelerated, count, nanos)
        }) == s,
        s.with_keys(count, nanos).key_derivations == s.key_derivations + count,
        s.with_keys(count, nanos).key_derivation_time_ns == s.key_derivation_time_ns + nanos,
        (SimdStats {
            key_derivations: s.key_derivations,
            key_derivation_time_ns: s.key_derivation_time_ns,
            ..s.with_keys(count, nanos)
        }) == s,
        s.with_verifications(count, nanos).signature_verifications == s.signature_verifications
            + count,
        s.with_verifications(count, nanos).signature_time_ns == s.signature_time_ns + nanos,
        (SimdStats {
            signature_verifications: s.signature_verifications,
            signature_time_ns: s.signature_time_ns,
            ..s.with_verifications(count, nanos)
        }) == s,
{
}

/// Exclusive or keeps the length, is the same both ways round, is zero of a string
/// with itself, and the string of a string with zeros.
pub proof fn xor_finds_differences(a: Seq<u8>, b: Seq<u8>, i: int)
    requires
        a.len() == b.len(),
        0 <= i < a.len(),
    ensures
        xor_bytes(a, b).len() == a.len(),
        xor_bytes(a, b)[i] == xor_bytes(b, a)[i],
        xor_bytes(a, b)[i] == 0 <==> a[i] == b[i],
        b[i] == 0 ==> xor_bytes(a, b)[i] == a[i],
{
    let x = a[i];
    let y = b[i];
    assert(x ^ y == y ^ x && (x ^ y == 0 <==> x == y) && (y == 0 ==> x ^ y == x)) by (bit_vector);
}

/// A ciphertext is opened to nothing where it is longer than any message can make it,
/// and every message that can be encrypted has a ciphertext that is tried.
pub proof fn overlong_ciphertexts_are_refused(
    key: Seq<u8>,
    nonces: Seq<[u8; 12]>,
    ciphertexts: Seq<Vec<u8>>,
    m: Seq<u8>,
    i: int,
)
    requires
        0 <= i < ciphertexts.len(),
        ciphertexts[i]@.len() > 0x10_0000_0020,
    ensures
        opened(key, nonces[i]@, ciphertexts[i]@) is None,
        !decryptable(key, nonces, ciphertexts),
        ciphertext_length_ok(ciphertexts[i]@.len()),
        encryptable(m) ==> message_length_ok(m.len()) && ciphertext_length_ok(
            m.len() + TAG_BYTES as nat,
        ) && m.len() + TAG_BYTES <= C_MAX,
        m.len() > 0x10_0000_0000 ==> !encryptable(m) && message_length_ok(m.len()),
        encryptable(m) <==> m.len() <= 0x10_0000_0000 - 32,
{
    if decryptable(key, nonces, ciphertexts) {
        assert(opened(key, nonces[i]@, ciphertexts[i]@) is Some);
    }
}

/// Time is told per message, messages per second, and accelerated batches per batch;
/// where nothing was counted, as zero.
pub proof fn rates_are_told_per_unit(s: SimdStats, span: Duration, secs: u64)
    requires
        secs > 0,
    ensures
        span.nanos == secs * 1_000_000_000 ==> s.ops_per_second_spec(span).is(s.total_operations as int, secs as int),
        span.nanos == 0 ==> s.ops_per_second_spec(span).is(0, 1),
        s.simd_operations + s.fallback_operations > 0 ==> s.simd_utilization_spec().is(s.simd_operations as int, s.simd_operations + s.fallback_operations),
        s.simd_operations + s.fallback_operations == 0 ==> s.simd_utilization_spec().is(0, 1),
        s.total_operations > 0 ==> s.avg_operation_latency_ns_spec().is(s.total_time_ns as int, s.total_operations as int),
        s.total_operations == 0 ==> s.avg_operation_latency_ns_spec().is(0, 1),
{
    assert((s.total_operations) * 1_000_000_000 * secs == (s.total_operations) * (secs * 1_000_000_000)) by (nonlinear_arith);
}

/// Nothing counts before anything is done.
pub proof fn counters_start_at_zero()
    ensures
        SimdStats::none().total_operations == 0,
        SimdStats::none().total_time_ns == 0,
        SimdStats::none().simd_operations == 0,
        SimdStats::none().fallback_operations == 0,
        SimdStats::none().hash_operations == 0,
        SimdStats::none().hash_time_ns == 0,
        SimdStats::none().simd_hash_operations == 0,
        SimdStats::none().fallback_hash_operations == 0,
        SimdStats::none().signature_verifications == 0,
        SimdStats::none().signature_time_ns == 0,
        SimdStats::none().key_derivations == 0,
        SimdStats::none().key_derivation_time_ns == 0,
{
}

} // verus!
