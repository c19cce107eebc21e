//! Hybrid cryptography: classical algorithms together with ones that resist
//! quantum computers.
//!
//! The classical halves (X25519, Ed25519) are the transport's and come in as
//! results. The quantum-safe halves are ML-KEM and Dilithium.
use crate::clock::Stopwatch;
use crate::counters::{add_wrapping, wrapped_sum};
use crate::crypto::primitives::{hkdf_expand, hkdf_sha256};
use crate::ml::{MLConfig, SignedRatio};
use crate::ratio::Ratio;
use crate::time::Duration;
use aes_gcm::aead::OsRng;
use dilithium::params::{BYTES, PUBLICKEYBYTES, SECRETKEYBYTES};
use ml_kem::kem::Encapsulate;
use ml_kem::{EncodedSizeUser, KemCore, MlKem768};
use vstd::prelude::*;

verus! {

/// Where the public key starts in an ML-KEM secret key.
pub const ML_KEM_PUBLIC_START: usize = 1152;

/// Where the public key ends in an ML-KEM secret key.
pub const ML_KEM_PUBLIC_END: usize = 2336;

/// Bytes of a Dilithium signature.
pub const DILITHIUM_SIGNATURE_BYTES: usize = 2701;

/// Where the counters of the hint stand in a Dilithium signature.
pub const HINT_COUNTERS_START: usize = 2656;

/// How many counters the hint has.
pub const HINT_COUNTERS: usize = 5;

/// The bytes of the hint, which no counter may point beyond.
pub const HINT_BYTES: u8 = 101;

// ---------------------------------------------------------------------------
// ML-KEM
// ---------------------------------------------------------------------------

/// What encapsulation to a public key makes of 32 random bytes: a ciphertext and
/// a shared secret.
pub uninterp spec fn ml_kem_encapsulation(public_key: Seq<u8>, random: Seq<u8>) -> (
    Seq<u8>,
    Seq<u8>,
);

/// Random bytes with which encapsulation to a public key gives a ciphertext and a
/// shared secret, if there are any.
pub open spec fn drawn(public_key: Seq<u8>, ciphertext: Seq<u8>, secret: Seq<u8>) -> Seq<u8> {
    choose|random: Seq<u8>|
        random.len() == 32 && (ciphertext, secret) == #[trigger] ml_kem_encapsulation(
            public_key,
            random,
        )
}

/// A ciphertext and a shared secret come from encapsulation to a public key with
/// some random bytes.
pub open spec fn is_encapsulation(
    public_key: Seq<u8>,
    ciphertext: Seq<u8>,
    secret: Seq<u8>,
) -> bool {
    exists|random: Seq<u8>|
        (ciphertext, secret) == #[trigger] ml_kem_encapsulation(public_key, random)
}

/// `MlKem768::generate` with the system's random numbers, written by
/// `EncodedSizeUser::as_bytes`: a decapsulation key and its encapsulation key, which
/// the bytes of the former hold behind those of its decryption key. Which ones they
/// are depends on chance.
#[verifier::external_body]
fn ml_kem_generate() -> (keys: ([u8; 2400], [u8; 1184]))
    ensures
        keys.0@.subrange(ML_KEM_PUBLIC_START as int, ML_KEM_PUBLIC_END as int) == keys.1@,
{
    let (dk, ek) = MlKem768::generate(&mut OsRng);
    (dk.as_bytes().into(), ek.as_bytes().into())
}

/// `Encapsulate::encapsulate` to the key that `EncodedSizeUser::from_bytes` reads,
/// with the system's random numbers: a ciphertext and a shared secret, which are a
/// function of the key and of the random numbers drawn. It never fails.
#[verifier::external_body]
fn ml_kem_encapsulate(public_key: &[u8; 1184]) -> (sealed: ([u8; 1088], [u8; 32]))
    ensures
        (sealed.0@, sealed.1@) == ml_kem_encapsulation(
            public_key@,
            drawn(public_key@, sealed.0@, sealed.1@),
        ),
{
    let key = <MlKem768 as KemCore>::EncapsulationKey::from_bytes(&(*public_key).into());
    let (ciphertext, secret) = key.encapsulate(&mut OsRng).unwrap();
    (ciphertext.into(), secret.into())
}

// ---------------------------------------------------------------------------
// Dilithium
// ---------------------------------------------------------------------------

/// The keys were made together by `dilithium::sign::keypair`.
pub uninterp spec fn dilithium_pair(public_key: Seq<u8>, secret_key: Seq<u8>) -> bool;

/// What `dilithium::sign::sign` makes of a secret key and a message.
pub uninterp spec fn dilithium_signature(secret_key: Seq<u8>, message: Seq<u8>) -> Seq<u8>;

/// What `dilithium::sign::verify` says of a public key, a message and a signature.
pub uninterp spec fn dilithium_valid(
    public_key: Seq<u8>,
    message: Seq<u8>,
    signature: Seq<u8>,
) -> bool;

/// Some bytes can be read as a signature: they have its length, and the hint's
/// counters do not point beyond the hint.
pub open spec fn readable_signature(s: Seq<u8>) -> bool {
    &&& s.len() == DILITHIUM_SIGNATURE_BYTES
    &&& forall|i: int|
        HINT_COUNTERS_START <= i < HINT_COUNTERS_START + HINT_COUNTERS ==> #[trigger] s[i]
            <= HINT_BYTES
}

/// `dilithium::sign::keypair` with `rand::thread_rng`: a public key and its secret
/// key. Which ones they are depends on chance. The crate samples a matrix from a
/// fixed stretch of hash output and panics where that does not suffice, which no
/// seed is known for.
#[verifier::external_body]
fn dilithium_keypair() -> (keys: ([u8; 1472], [u8; 3504]))
    ensures
        dilithium_pair(keys.0@, keys.1@),
{
    let mut public_key = [0u8; PUBLICKEYBYTES];
    let mut secret_key = [0u8; SECRETKEYBYTES];
    dilithium::sign::keypair(&mut rand::thread_rng(), &mut public_key, &mut secret_key);
    (public_key, secret_key)
}

/// `dilithium::sign::sign` with a secret key of `dilithium::sign::keypair`: a
/// signature, a function of the secret key and the message. It can be read, and
/// `dilithium::sign::verify` accepts it with the public key made together with the
/// secret key.
#[verifier::external_body]
fn dilithium_sign(secret_key: &[u8; 3504], message: &[u8]) -> (signature: Vec<u8>)
    requires
        exists|p: Seq<u8>| dilithium_pair(p, secret_key@),
    ensures
        signature@ == dilithium_signature(secret_key@, message@),
        readable_signature(signature@),
        forall|p: Seq<u8>| #[trigger]
            dilithium_pair(p, secret_key@) ==> dilithium_valid(p, message@, signature@),
{
    let mut signature = [0u8; BYTES];
    dilithium::sign::sign(&mut signature, message, secret_key);
    signature.to_vec()
}

/// `dilithium::sign::verify`: whether a signature that can be read is one of the
/// message under the public key. The crate indexes the hint by its counters and
/// panics where they point beyond it, which is left out here. It also expands the
/// seed in the public key to a matrix from a fixed stretch of hash output, as
/// `dilithium::sign::keypair` does, and panics where too many of the numbers in it
/// are rejected; no seed is known for which that is so, and none is left out.
#[verifier::external_body]
fn dilithium_verify(public_key: &[u8; 1472], message: &[u8], signature: &Vec<u8>) -> (ok: bool)
    requires
        readable_signature(signature@),
    ensures
        ok == dilithium_valid(public_key@, message@, signature@),
{
    let signature: &[u8; BYTES] = signature.as_slice().try_into().unwrap();
    dilithium::sign::verify(message, signature, public_key)
}

/// A pair of Dilithium keys.
pub struct DilithiumKeys {
    public_key: [u8; 1472],
    secret_key: [u8; 3504],
}

impl DilithiumKeys {
    #[verifier::type_invariant]
    spec fn inv(&self) -> bool {
        dilithium_pair(self.public_key@, self.secret_key@)
    }

    /// The public key.
    pub closed spec fn public(&self) -> Seq<u8> {
        self.public_key@
    }

    /// The secret key.
    pub closed spec fn secret(&self) -> Seq<u8> {
        self.secret_key@
    }

    /// The signature of a message by the secret key.
    pub open spec fn signature_of(&self, message: Seq<u8>) -> Seq<u8> {
        dilithium_signature(self.secret(), message)
    }

    /// The keys were made together.
    pub open spec fn matched(&self) -> bool {
        dilithium_pair(self.public(), self.secret())
    }

    /// A fresh pair.
    pub fn generate() -> (k: Self)
        ensures
            k.matched(),
    {
        let (public_key, secret_key) = dilithium_keypair();
        DilithiumKeys { public_key, secret_key }
    }

    /// The public key.
    pub fn verifying_key(&self) -> (key: [u8; 1472])
        ensures
            key@ == self.public(),
    {
        self.public_key
    }

    /// A signature of a message, which the public key accepts.
    pub fn sign(&self, message: &[u8]) -> (signature: Vec<u8>)
        ensures
            signature@ == self.signature_of(message@),
            readable_signature(signature@),
            dilithium_valid(self.public(), message@, signature@),
    {
        proof {
            use_type_invariant(self);
        }
        dilithium_sign(&self.secret_key, message)
    }
}

/// A pair of ML-KEM keys.
pub struct MlKemKeys {
    pub public_key: [u8; 1184],
    pub secret_key: [u8; 2400],
}

impl MlKemKeys {
    /// The public key is the one that the secret key holds.
    pub open spec fn matched(&self) -> bool {
        self.secret_key@.subrange(ML_KEM_PUBLIC_START as int, ML_KEM_PUBLIC_END as int)
            == self.public_key@
    }

    /// A fresh pair.
    pub fn generate() -> (k: Self)
        ensures
            k.matched(),
    {
        let (secret_key, public_key) = ml_kem_generate();
        MlKemKeys { public_key, secret_key }
    }
}

// ---------------------------------------------------------------------------
// Hybrid values
// ---------------------------------------------------------------------------

/// Which algorithms are used.
#[derive(Clone, Copy, Debug, PartialEq, Eq, Structural)]
pub enum ProtocolVersion {
    /// Classical ones only.
    Classical,
    /// Classical and quantum-safe ones.
    Hybrid,
    /// Quantum-safe ones only.
    QuantumOnly,
}

/// The protocol with or without quantum-safe part.
pub open spec fn version_of(has_quantum_safe: bool) -> ProtocolVersion {
    if has_quantum_safe {
        ProtocolVersion::Hybrid
    } else {
        ProtocolVersion::Classical
    }
}

fn version(has_quantum_safe: bool) -> (v: ProtocolVersion)
    ensures
        v == version_of(has_quantum_safe),
{
    if has_quantum_safe {
        ProtocolVersion::Hybrid
    } else {
        ProtocolVersion::Classical
    }
}

/// The quantum-safe parts of a public key.
#[derive(Clone, Copy, Debug)]
pub struct QuantumSafePublicKey {
    pub ml_kem_public: [u8; 1184],
    pub dilithium_public: [u8; 1472],
}

/// A public key with a classical part and, maybe, quantum-safe ones.
#[derive(Debug)]
pub struct PostQuantumPublicKey<C> {
    pub classical: C,
    pub quantum_safe: Option<QuantumSafePublicKey>,
    pub protocol_version: ProtocolVersion,
}

/// A secret that was encapsulated, and the ciphertext that carries it.
#[derive(Clone, Copy, Debug)]
pub struct QuantumSafeSecret {
    pub shared_secret: [u8; 32],
    pub ciphertext: [u8; 1088],
}

/// The secrets of a key exchange.
#[derive(Debug)]
pub struct HybridSharedSecret {
    pub classical: [u8; 32],
    pub quantum_safe: Option<QuantumSafeSecret>,
    pub protocol_version: ProtocolVersion,
}

impl HybridSharedSecret {
    /// The classical secret, followed by the quantum-safe one where there is one.
    pub open spec fn key_material(&self) -> Seq<u8> {
        match self.quantum_safe {
            Some(q) => self.classical@ + q.shared_secret@,
            None => self.classical@,
        }
    }

    /// A key of 32 bytes for a use, derived from the secrets.
    pub fn derive_key(&self, info: &[u8]) -> (r: Result<Vec<u8>, CryptoError>)
        ensures
            r is Ok,
            r->Ok_0@.len() == 32,
            r->Ok_0@ == hkdf_sha256(None, self.key_material(), info@, 32),
    {
        let mut combined: Vec<u8> = Vec::new();
        append_bytes(&mut combined, &self.classical);
        match &self.quantum_safe {
            Some(q) => {
                append_bytes(&mut combined, &q.shared_secret);
            },
            None => {},
        }
        assert(combined@ =~= self.key_material());
        match hkdf_expand(None, combined.as_slice(), info, 32) {
            Some(key) => Ok(key),
            None => Err(CryptoError::KeyDerivation),
        }
    }
}

fn append_bytes(out: &mut Vec<u8>, bytes: &[u8])
    ensures
        final(out)@ == old(out)@ + bytes@,
{
    let mut i: usize = 0;
    let ghost start = out@;
    assert(start =~= start + bytes@.subrange(0, 0));
    while i < bytes.len()
        invariant
            i <= bytes@.len(),
            out@ == start + bytes@.subrange(0, i as int),
        decreases bytes@.len() - i,
    {
        out.push(bytes[i]);
        i += 1;
        assert(out@ =~= start + bytes@.subrange(0, i as int));
    }
    assert(bytes@.subrange(0, i as int) =~= bytes@);
}

/// Both ends of a key exchange that hold the same secrets derive the same key.
pub proof fn same_secrets_same_key(a: HybridSharedSecret, b: HybridSharedSecret, info: Seq<u8>)
    requires
        a.classical == b.classical,
        a.quantum_safe is Some <==> b.quantum_safe is Some,
        a.quantum_safe is Some ==> a.quantum_safe->0.shared_secret
            == b.quantum_safe->0.shared_secret,
    ensures
        hkdf_sha256(None, a.key_material(), info, 32) == hkdf_sha256(
            None,
            b.key_material(),
            info,
            32,
        ),
{
}

/// What can go wrong.
#[derive(Clone, Copy, Debug, PartialEq, Eq, Structural)]
pub enum CryptoError {
    /// Some bytes cannot be read as a Dilithium signature.
    InvalidDilithiumSignature,
    /// No key could be derived.
    KeyDerivation,
}

/// A signature with a classical part and, maybe, a quantum-safe one.
#[derive(Debug)]
pub struct HybridSignature {
    pub classical: Vec<u8>,
    pub quantum_safe: Option<Vec<u8>>,
    pub protocol_version: ProtocolVersion,
}

impl HybridSignature {
    /// What verification says: where both sides have a quantum-safe part, both
    /// parts have to be valid; otherwise the classical part decides.
    pub open spec fn verified(
        &self,
        classical_valid: bool,
        message: Seq<u8>,
        quantum_safe: Option<QuantumSafePublicKey>,
    ) -> Result<bool, CryptoError> {
        match (self.quantum_safe, quantum_safe) {
            (Some(s), Some(p)) => if readable_signature(s@) {
                Ok(classical_valid && dilithium_valid(p.dilithium_public@, message, s@))
            } else {
                Err(CryptoError::InvalidDilithiumSignature)
            },
            _ => Ok(classical_valid),
        }
    }

    /// Whether the signature is one of the message under a public key, given
    /// whether its classical part is.
    pub fn verify<C>(
        &self,
        classical_valid: bool,
        message: &[u8],
        public_key: &PostQuantumPublicKey<C>,
    ) -> (r: Result<bool, CryptoError>)
        ensures
            r == self.verified(classical_valid, message@, public_key.quantum_safe),
    {
        match (&self.quantum_safe, &public_key.quantum_safe) {
            (Some(s), Some(p)) => {
                if !is_readable(s) {
                    return Err(CryptoError::InvalidDilithiumSignature);
                }
                let dilithium_ok = dilithium_verify(&p.dilithium_public, message, s);
                Ok(classical_valid && dilithium_ok)
            },
            _ => Ok(classical_valid),
        }
    }
}

fn is_readable(s: &Vec<u8>) -> (b: bool)
    ensures
        b == readable_signature(s@),
{
    if s.len() != DILITHIUM_SIGNATURE_BYTES {
        return false;
    }
    let mut i: usize = HINT_COUNTERS_START;
    while i < HINT_COUNTERS_START + HINT_COUNTERS
        invariant
            HINT_COUNTERS_START <= i <= HINT_COUNTERS_START + HINT_COUNTERS,
            s@.len() == DILITHIUM_SIGNATURE_BYTES,
            forall|j: int| HINT_COUNTERS_START <= j < i ==> #[trigger] s@[j] <= HINT_BYTES,
        decreases HINT_COUNTERS_START + HINT_COUNTERS - i,
    {
        if s[i] > HINT_BYTES {
            return false;
        }
        i += 1;
    }
    true
}

/// A signature whose quantum-safe part the signer's key accepts is as good as its
/// classical part; and neither part alone makes a hybrid signature good.
pub proof fn hybrid_needs_both(
    s: HybridSignature,
    p: QuantumSafePublicKey,
    message: Seq<u8>,
    classical_valid: bool,
)
    requires
        s.quantum_safe is Some,
        readable_signature(s.quantum_safe->0@),
    ensures
        s.verified(classical_valid, message, Some(p)) is Ok,
        s.verified(false, message, Some(p)) == Ok::<bool, CryptoError>(false),
        s.verified(true, message, Some(p)) == Ok::<bool, CryptoError>(
            dilithium_valid(p.dilithium_public@, message, s.quantum_safe->0@),
        ),
{
}

// ---------------------------------------------------------------------------
// Configuration and statistics
// ---------------------------------------------------------------------------

/// How hybrid cryptography is configured.
#[derive(Clone, Copy, Debug, PartialEq, Eq, Structural)]
pub struct PostQuantumConfig {
    pub enabled: bool,
    /// Whether public keys have quantum-safe parts.
    pub enable_quantum_safe: bool,
    /// Whether signatures have a quantum-safe part.
    pub enable_hybrid_signatures: bool,
    pub fallback_on_error: bool,
    pub max_latency: Duration,
}

impl PostQuantumConfig {
    /// Everything enabled.
    pub open spec fn standard() -> Self {
        PostQuantumConfig {
            enabled: true,
            enable_quantum_safe: true,
            enable_hybrid_signatures: true,
            fallback_on_error: true,
            max_latency: Duration { nanos: 100_000_000 },
        }
    }
}

impl Default for PostQuantumConfig {
    fn default() -> (c: Self)
        ensures
            c == Self::standard(),
    {
        PostQuantumConfig {
            enabled: true,
            enable_quantum_safe: true,
            enable_hybrid_signatures: true,
            fallback_on_error: true,
            max_latency: Duration::from_millis(100),
        }
    }
}

/// What was done, and how long it took.
#[derive(Clone, Copy, Debug, PartialEq, Eq, Structural)]
pub struct PostQuantumStats {
    pub key_exchanges: u64,
    pub key_exchange_time_ns: u64,
    pub signatures: u64,
    pub signature_time_ns: u64,
    /// Key exchanges and signatures of which only the classical half was made.
    pub fallbacks: u64,
}

impl Default for PostQuantumStats {
    fn default() -> (s: Self)
        ensures
            s == PostQuantumStats::none(),
    {
        PostQuantumStats {
            key_exchanges: 0,
            key_exchange_time_ns: 0,
            signatures: 0,
            signature_time_ns: 0,
            fallbacks: 0,
        }
    }
}

impl PostQuantumStats {
    /// Nothing was done.
    pub open spec fn none() -> Self {
        PostQuantumStats {
            key_exchanges: 0,
            key_exchange_time_ns: 0,
            signatures: 0,
            signature_time_ns: 0,
            fallbacks: 0,
        }
    }

    /// One key exchange more, that took so long. It fell back where it gave the
    /// classical secret alone.
    pub open spec fn with_exchange(self, nanos: u64, fell_back: bool) -> Self {
        PostQuantumStats {
            key_exchanges: wrapped_sum(self.key_exchanges, 1),
            key_exchange_time_ns: wrapped_sum(self.key_exchange_time_ns, nanos),
            ..self.with_fallback(fell_back)
        }
    }

    /// One signature more, that took so long. It fell back where it is the
    /// classical one alone.
    pub open spec fn with_signature(self, nanos: u64, fell_back: bool) -> Self {
        PostQuantumStats {
            signatures: wrapped_sum(self.signatures, 1),
            signature_time_ns: wrapped_sum(self.signature_time_ns, nanos),
            ..self.with_fallback(fell_back)
        }
    }

    /// One fallback more, where there was one.
    pub open spec fn with_fallback(self, fell_back: bool) -> Self {
        PostQuantumStats {
            fallbacks: if fell_back {
                wrapped_sum(self.fallbacks, 1)
            } else {
                self.fallbacks
            },
            ..self
        }
    }

    /// Counts a fallback to the classical half, where there was one.
    fn count_fallback(&mut self, fell_back: bool)
        ensures
            *final(self) == old(self).with_fallback(fell_back),
    {
        if fell_back {
            self.fallbacks = add_wrapping(self.fallbacks, 1);
        }
    }

    /// Nanoseconds per key exchange.
    pub open spec fn avg_key_exchange_latency_ns_spec(self) -> Ratio {
        Ratio::of_spec(self.key_exchange_time_ns as int, self.key_exchanges as int)
    }

    /// Nanoseconds per key exchange.
    pub fn avg_key_exchange_latency_ns(&self) -> (r: Ratio)
        ensures
            r == self.avg_key_exchange_latency_ns_spec(),
            r == Ratio::of_spec(self.key_exchange_time_ns as int, self.key_exchanges as int),
    {
        Ratio::of(self.key_exchange_time_ns as u128, self.key_exchanges as u128)
    }

    /// Nanoseconds per signature.
    pub open spec fn avg_signature_latency_ns_spec(self) -> Ratio {
        Ratio::of_spec(self.signature_time_ns as int, self.signatures as int)
    }

    /// Nanoseconds per signature.
    pub fn avg_signature_latency_ns(&self) -> (r: Ratio)
        ensures
            r == self.avg_signature_latency_ns_spec(),
            r == Ratio::of_spec(self.signature_time_ns as int, self.signatures as int),
    {
        Ratio::of(self.signature_time_ns as u128, self.signatures as u128)
    }

    /// Key exchanges less the fallbacks, per key exchange.
    pub open spec fn quantum_safe_utilization_spec(self) -> SignedRatio {
        if self.key_exchanges == 0 {
            SignedRatio { numer: 0, denom: 1 }
        } else {
            SignedRatio {
                numer: (self.key_exchanges - self.fallbacks) as i128,
                denom: self.key_exchanges as u128,
            }
        }
    }

    /// Key exchanges less the fallbacks, per key exchange.
    pub fn quantum_safe_utilization(&self) -> (r: SignedRatio)
        ensures
            r == self.quantum_safe_utilization_spec(),
            r == (if self.key_exchanges == 0 {
                SignedRatio { numer: 0, denom: 1 }
            } else {
                SignedRatio {
                    numer: (self.key_exchanges - self.fallbacks) as i128,
                    denom: self.key_exchanges as u128,
                }
            }),
    {
        if self.key_exchanges == 0 {
            SignedRatio { numer: 0, denom: 1 }
        } else {
            SignedRatio {
                numer: self.key_exchanges as i128 - self.fallbacks as i128,
                denom: self.key_exchanges as u128,
            }
        }
    }
}

// ---------------------------------------------------------------------------
// The enhancer
// ---------------------------------------------------------------------------

/// Quantum-safe keys and what is done with them.
pub struct PostQuantumEnhancer {
    pub ml_kem_keypair: MlKemKeys,
    pub dilithium_keypair: DilithiumKeys,
    pub config: PostQuantumConfig,
    pub stats: PostQuantumStats,
}

/// What a key exchange gives.
pub open spec fn exchanged(
    r: HybridSharedSecret,
    classical_secret: Seq<u8>,
    quantum_safe: Option<QuantumSafePublicKey>,
) -> bool {
    &&& r.classical@ == classical_secret
    &&& r.quantum_safe is Some <==> quantum_safe is Some
    &&& r.quantum_safe is Some ==> is_encapsulation(
        quantum_safe->0.ml_kem_public@,
        r.quantum_safe->0.ciphertext@,
        r.quantum_safe->0.shared_secret@,
    )
    &&& r.protocol_version == version_of(quantum_safe is Some)
}

impl PostQuantumEnhancer {
    /// Fresh keys.
    pub fn new(config: PostQuantumConfig) -> (e: Self)
        ensures
            e.config == config,
            e.ml_kem_keypair.matched(),
            e.dilithium_keypair.matched(),
            e.stats == PostQuantumStats::none(),
    {
        PostQuantumEnhancer {
            ml_kem_keypair: MlKemKeys::generate(),
            dilithium_keypair: DilithiumKeys::generate(),
            config,
            stats: PostQuantumStats::default(),
        }
    }

    /// The secrets shared with a peer: the classical one, and one encapsulated to
    /// the peer's ML-KEM key where it has one.
    pub fn hybrid_key_exchange<C>(
        &mut self,
        classical_secret: [u8; 32],
        peer_public: &PostQuantumPublicKey<C>,
    ) -> (r: HybridSharedSecret)
        ensures
            exchanged(r, classical_secret@, peer_public.quantum_safe),
            final(self).config == old(self).config,
            final(self).ml_kem_keypair == old(self).ml_kem_keypair,
            final(self).dilithium_keypair == old(self).dilithium_keypair,
            exists|nanos: u64|
                final(self).stats == #[trigger] old(self).stats.with_exchange(
                    nanos,
                    peer_public.quantum_safe is None,
                ),
    {
        let watch = Stopwatch::start();
        let quantum_safe = match &peer_public.quantum_safe {
            Some(peer) => {
                let (ciphertext, shared_secret) = ml_kem_encapsulate(&peer.ml_kem_public);
                Some(QuantumSafeSecret { shared_secret, ciphertext })
            },
            None => None,
        };
        let protocol_version = version(quantum_safe.is_some());
        let nanos: u64 = watch.elapsed_nanos();
        let ghost before = self.stats;
        self.stats.key_exchanges = add_wrapping(self.stats.key_exchanges, 1);
        self.stats.key_exchange_time_ns = add_wrapping(self.stats.key_exchange_time_ns, nanos);
        self.stats.count_fallback(quantum_safe.is_none());
        assert(self.stats == before.with_exchange(nanos, peer_public.quantum_safe is None));
        HybridSharedSecret { classical: classical_secret, quantum_safe, protocol_version }
    }

    /// A signature of a message: the classical one, and a Dilithium one where that
    /// is enabled.
    pub fn hybrid_sign(&mut self, classical_signature: Vec<u8>, message: &[u8]) -> (r:
        HybridSignature)
        ensures
            r.classical == classical_signature,
            r.quantum_safe is Some <==> old(self).config.enable_hybrid_signatures,
            r.quantum_safe is Some ==> {
                &&& r.quantum_safe->0@ == old(self).dilithium_keypair.signature_of(message@)
                &&& readable_signature(r.quantum_safe->0@)
                &&& dilithium_valid(
                    old(self).dilithium_keypair.public(),
                    message@,
                    r.quantum_safe->0@,
                )
            },
            r.protocol_version == version_of(old(self).config.enable_hybrid_signatures),
            final(self).config == old(self).config,
            final(self).ml_kem_keypair == old(self).ml_kem_keypair,
            final(self).dilithium_keypair == old(self).dilithium_keypair,
            exists|nanos: u64|
                final(self).stats == #[trigger] old(self).stats.with_signature(
                    nanos,
                    r.quantum_safe is None,
                ),
    {
        let watch = Stopwatch::start();
        let quantum_safe = if self.config.enable_hybrid_signatures {
            Some(self.dilithium_keypair.sign(message))
        } else {
            None
        };
        let protocol_version = version(quantum_safe.is_some());
        let nanos: u64 = watch.elapsed_nanos();
        let ghost before = self.stats;
        self.stats.signatures = add_wrapping(self.stats.signatures, 1);
        self.stats.signature_time_ns = add_wrapping(self.stats.signature_time_ns, nanos);
        self.stats.count_fallback(quantum_safe.is_none());
        assert(self.stats == before.with_signature(nanos, quantum_safe is None));
        HybridSignature { classical: classical_signature, quantum_safe, protocol_version }
    }

    /// The public key: the classical one, and the quantum-safe ones where they are
    /// enabled.
    pub fn get_public_key<C>(&self, classical: C) -> (r: PostQuantumPublicKey<C>)
        ensures
            r.classical == classical,
            r.quantum_safe is Some <==> self.config.enable_quantum_safe,
            r.quantum_safe is Some ==> {
                &&& r.quantum_safe->0.ml_kem_public == self.ml_kem_keypair.public_key
                &&& r.quantum_safe->0.dilithium_public@ == self.dilithium_keypair.public()
            },
            r.protocol_version == version_of(self.config.enable_quantum_safe),
    {
        let quantum_safe = if self.config.enable_quantum_safe {
            Some(
                QuantumSafePublicKey {
                    ml_kem_public: self.ml_kem_keypair.public_key,
                    dilithium_public: self.dilithium_keypair.verifying_key(),
                },
            )
        } else {
            None
        };
        let protocol_version = version(quantum_safe.is_some());
        PostQuantumPublicKey { classical, quantum_safe, protocol_version }
    }

    /// What was done so far.
    pub fn get_stats(&self) -> (s: PostQuantumStats)
        ensures
            s == self.stats,
    {
        self.stats
    }
}

/// A message signed by a key pair verifies under its public key exactly where the
/// classical part does, with and without quantum-safe parts.
pub proof fn own_signature_verifies<C>(
    keys: DilithiumKeys,
    public_key: PostQuantumPublicKey<C>,
    s: HybridSignature,
    message: Seq<u8>,
    classical_valid: bool,
)
    requires
        public_key.quantum_safe is Some ==> public_key.quantum_safe->0.dilithium_public@
            == keys.public(),
        s.quantum_safe is Some ==> readable_signature(s.quantum_safe->0@) && dilithium_valid(
            keys.public(),
            message,
            s.quantum_safe->0@,
        ),
    ensures
        s.verified(classical_valid, message, public_key.quantum_safe) == Ok::<bool, CryptoError>(
            classical_valid,
        ),
{
}

/// A transport key pair with quantum-safe keys, where enabled.
pub struct PostQuantumTransport<B> {
    pub base: B,
    pub enhancement: Option<PostQuantumEnhancer>,
    pub config: MLConfig,
}

impl<B> PostQuantumTransport<B> {
    /// Only what the enhancement counts may differ.
    pub open spec fn same_keys(before: Self, after: Self) -> bool {
        &&& after.base == before.base
        &&& after.config == before.config
        &&& after.enhancement is Some <==> before.enhancement is Some
        &&& before.enhancement is Some ==> {
            &&& after.enhancement->0.config == before.enhancement->0.config
            &&& after.enhancement->0.ml_kem_keypair == before.enhancement->0.ml_kem_keypair
            &&& after.enhancement->0.dilithium_keypair == before.enhancement->0.dilithium_keypair
        }
    }

    /// A transport that is enhanced where the configuration enables it.
    pub fn new(base: B, config: PostQuantumConfig) -> (t: Self)
        ensures
            t.base == base,
            t.enhancement is Some <==> config.enabled,
            t.enhancement is Some ==> {
                &&& t.enhancement->0.config == config
                &&& t.enhancement->0.ml_kem_keypair.matched()
                &&& t.enhancement->0.dilithium_keypair.matched()
                &&& t.enhancement->0.stats == PostQuantumStats::none()
            },
            t.config.enabled == config.enabled,
            t.config.fallback_on_error == config.fallback_on_error,
            t.config.model_path is None,
            t.config.max_inference_latency_ms == 50,
    {
        let enhancement = if config.enabled {
            Some(PostQuantumEnhancer::new(config))
        } else {
            None
        };
        PostQuantumTransport {
            base,
            enhancement,
            config: MLConfig {
                enabled: config.enabled,
                fallback_on_error: config.fallback_on_error,
                model_path: None,
                max_inference_latency_ms: 50,
            },
        }
    }

    /// The secrets shared with a peer: without enhancement only the classical one.
    pub fn hybrid_key_exchange<C>(
        &mut self,
        classical_secret: [u8; 32],
        peer_public: &PostQuantumPublicKey<C>,
    ) -> (r: HybridSharedSecret)
        ensures
            exchanged(
                r,
                classical_secret@,
                if old(self).enhancement is Some {
                    peer_public.quantum_safe
                } else {
                    None
                },
            ),
            Self::same_keys(*old(self), *final(self)),
            old(self).enhancement is Some ==> exists|nanos: u64|
                final(self).enhancement->0.stats
                    == #[trigger] old(self).enhancement->0.stats.with_exchange(
                    nanos,
                    peer_public.quantum_safe is None,
                ),
    {
        match &mut self.enhancement {
            Some(e) => e.hybrid_key_exchange(classical_secret, peer_public),
            None => HybridSharedSecret {
                classical: classical_secret,
                quantum_safe: None,
                protocol_version: ProtocolVersion::Classical,
            },
        }
    }

    /// A signature of a message: without enhancement only the classical one.
    pub fn hybrid_sign(&mut self, classical_signature: Vec<u8>, message: &[u8]) -> (r:
        HybridSignature)
        ensures
            r.classical == classical_signature,
            r.quantum_safe is Some <==> old(self).enhancement is Some && old(self).enhancement->0.config.enable_hybrid_signatures,
            r.quantum_safe is Some ==> {
                &&& r.quantum_safe->0@ == old(self).enhancement->0.dilithium_keypair.signature_of(
                    message@,
                )
                &&& readable_signature(r.quantum_safe->0@)
                &&& dilithium_valid(
                    old(self).enhancement->0.dilithium_keypair.public(),
                    message@,
                    r.quantum_safe->0@,
                )
            },
            r.protocol_version == version_of(r.quantum_safe is Some),
            Self::same_keys(*old(self), *final(self)),
            old(self).enhancement is Some ==> exists|nanos: u64|
                final(self).enhancement->0.stats
                    == #[trigger] old(self).enhancement->0.stats.with_signature(
                    nanos,
                    r.quantum_safe is None,
                ),
    {
        match &mut self.enhancement {
            Some(e) => e.hybrid_sign(classical_signature, message),
            None => HybridSignature {
                classical: classical_signature,
                quantum_safe: None,
                protocol_version: ProtocolVersion::Classical,
            },
        }
    }

    /// The public key: without enhancement only the classical one.
    pub fn hybrid_public_key<C>(&self, classical: C) -> (r: PostQuantumPublicKey<C>)
        ensures
            r.classical == classical,
            r.quantum_safe is Some <==> self.enhancement is Some
                && self.enhancement->0.config.enable_quantum_safe,
            r.quantum_safe is Some ==> {
                &&& r.quantum_safe->0.ml_kem_public
                    == self.enhancement->0.ml_kem_keypair.public_key
                &&& r.quantum_safe->0.dilithium_public@
                    == self.enhancement->0.dilithium_keypair.public()
            },
            r.protocol_version == version_of(r.quantum_safe is Some),
    {
        match &self.enhancement {
            Some(e) => e.get_public_key(classical),
            None => PostQuantumPublicKey {
                classical,
                quantum_safe: None,
                protocol_version: ProtocolVersion::Classical,
            },
        }
    }
}

// ---------------------------------------------------------------------------
// Negotiation
// ---------------------------------------------------------------------------

/// Negotiation of the protocol.
pub struct ProtocolNegotiation;

/// The best protocol that both sides have: hybrid before quantum-safe only, and
/// classical where they share neither.
pub open spec fn negotiated(
    local: Seq<ProtocolVersion>,
    remote: Seq<ProtocolVersion>,
) -> ProtocolVersion {
    if local.contains(ProtocolVersion::Hybrid) && remote.contains(ProtocolVersion::Hybrid) {
        ProtocolVersion::Hybrid
    } else if local.contains(ProtocolVersion::QuantumOnly) && remote.contains(
        ProtocolVersion::QuantumOnly,
    ) {
        ProtocolVersion::QuantumOnly
    } else {
        ProtocolVersion::Classical
    }
}

fn offers(caps: &[ProtocolVersion], v: ProtocolVersion) -> (b: bool)
    ensures
        b == caps@.contains(v),
{
    let mut i: usize = 0;
    while i < caps.len()
        invariant
            i <= caps@.len(),
            forall|j: int| 0 <= j < i ==> #[trigger] caps@[j] != v,
        decreases caps@.len() - i,
    {
        if caps[i] == v {
            return true;
        }
        i += 1;
    }
    false
}

impl ProtocolNegotiation {
    /// The best protocol that both sides have.
    pub fn negotiate(local_caps: &[ProtocolVersion], remote_caps: &[ProtocolVersion]) -> (v:
        ProtocolVersion)
        ensures
            v == negotiated(local_caps@, remote_caps@),
    {
        if offers(local_caps, ProtocolVersion::Hybrid) && offers(
            remote_caps,
            ProtocolVersion::Hybrid,
        ) {
            return ProtocolVersion::Hybrid;
        }
        if offers(local_caps, ProtocolVersion::QuantumOnly) && offers(
            remote_caps,
            ProtocolVersion::QuantumOnly,
        ) {
            return ProtocolVersion::QuantumOnly;
        }
        ProtocolVersion::Classical
    }

    /// The protocols of this node.
    pub fn supported_versions() -> (v: Vec<ProtocolVersion>)
        ensures
            v@ == seq![ProtocolVersion::Classical, ProtocolVersion::Hybrid],
    {
        let v: Vec<ProtocolVersion> = vec![ProtocolVersion::Classical, ProtocolVersion::Hybrid];
        assert(v@ =~= seq![ProtocolVersion::Classical, ProtocolVersion::Hybrid]);
        v
    }
}

/// Both sides come to the same protocol, and to one that both have unless it is
/// the classical one.
pub proof fn negotiation_is_symmetric(local: Seq<ProtocolVersion>, remote: Seq<ProtocolVersion>)
    ensures
        negotiated(local, remote) == negotiated(remote, local),
        negotiated(local, remote) != ProtocolVersion::Classical ==> local.contains(
            negotiated(local, remote),
        ) && remote.contains(negotiated(local, remote)),
{
}

/// Negotiation settles on a protocol that both sides have, or on the classical one; the
/// hybrid one where both have it, and a quantum-safe one before the classical one.
pub proof fn negotiation_takes_the_best_shared(
    local: Seq<ProtocolVersion>,
    remote: Seq<ProtocolVersion>,
)
    ensures
        local.contains(ProtocolVersion::Hybrid) && remote.contains(ProtocolVersion::Hybrid)
            <==> negotiated(local, remote) is Hybrid,
        negotiated(local, remote) is QuantumOnly <==> local.contains(ProtocolVersion::QuantumOnly)
            && remote.contains(ProtocolVersion::QuantumOnly) && !(local.contains(
            ProtocolVersion::Hybrid,
        ) && remote.contains(ProtocolVersion::Hybrid)),
        !(negotiated(local, remote) is Classical) ==> local.contains(negotiated(local, remote))
            && remote.contains(negotiated(local, remote)),
        negotiated(local, Seq::empty()) is Classical,
{
}

/// Both secrets of a key exchange go into the key, each as a whole and in its place: no
/// other secrets give the same material.
pub proof fn both_secrets_go_into_the_key(a: HybridSharedSecret, b: HybridSharedSecret)
    requires
        a.key_material() == b.key_material(),
    ensures
        a.classical@ == b.classical@,
        a.quantum_safe is Some <==> b.quantum_safe is Some,
        a.quantum_safe is Some ==> a.quantum_safe->0.shared_secret@
            == b.quantum_safe->0.shared_secret@,
{
    let m = a.key_material();
    let n = b.key_material();
    assert(a.classical@.len() == 32 && b.classical@.len() == 32);
    assert(m.subrange(0, 32) =~= a.classical@);
    assert(n.subrange(0, 32) =~= b.classical@);
    if a.quantum_safe is Some {
        assert(a.quantum_safe->0.shared_secret@.len() == 32);
        assert(m.len() == 64);
        assert(m.subrange(32, 64) =~= a.quantum_safe->0.shared_secret@);
    }
    if b.quantum_safe is Some {
        assert(b.quantum_safe->0.shared_secret@.len() == 32);
        assert(n.len() == 64);
        assert(n.subrange(32, 64) =~= b.quantum_safe->0.shared_secret@);
    }
}

/// Key material begins with the classical secret, and is nothing more without a
/// quantum-safe one.
pub proof fn classical_secret_comes_first(a: HybridSharedSecret)
    ensures
        a.key_material().subrange(0, 32) == a.classical@,
        a.quantum_safe is None ==> a.key_material() == a.classical@,
        a.quantum_safe is Some ==> a.key_material().len() == 64,
{
    assert(a.classical@.len() == 32);
    assert(a.key_material().subrange(0, 32) =~= a.classical@);
}

/// A protocol is hybrid where there is a quantum-safe half, and classical otherwise.
pub proof fn versions_say_what_is_there(has_quantum_safe: bool)
    ensures
        version_of(has_quantum_safe) is Hybrid <==> has_quantum_safe,
        version_of(has_quantum_safe) is Classical <==> !has_quantum_safe,
{
}

/// Without a quantum-safe part on one side the classical part decides; with one on both
/// sides a signature that cannot be read is an error, and a bad half makes the whole bad.
pub proof fn classical_part_decides_alone(
    s: HybridSignature,
    classical_valid: bool,
    message: Seq<u8>,
    p: QuantumSafePublicKey,
)
    ensures
        s.verified(classical_valid, message, None) == Ok::<bool, CryptoError>(classical_valid),
        s.quantum_safe is None ==> s.verified(classical_valid, message, Some(p)) == Ok::<
            bool,
            CryptoError,
        >(classical_valid),
        s.quantum_safe is Some && s.quantum_safe->0@.len() != DILITHIUM_SIGNATURE_BYTES
            ==> s.verified(classical_valid, message, Some(p)) is Err,
        s.quantum_safe is Some && !dilithium_valid(
            p.dilithium_public@,
            message,
            s.quantum_safe->0@,
        ) ==> s.verified(classical_valid, message, Some(p)) != Ok::<bool, CryptoError>(true),
{
}

/// An exchange passes the classical secret on, and adds a secret encapsulated to the
/// peer's own key exactly where the peer has one.
pub proof fn exchanges_keep_the_classical_secret(
    r: HybridSharedSecret,
    classical: Seq<u8>,
    peer: Option<QuantumSafePublicKey>,
)
    requires
        exchanged(r, classical, peer),
    ensures
        r.classical@ == classical,
        peer is None ==> r.quantum_safe is None && r.protocol_version is Classical
            && r.key_material() == classical,
        peer is Some ==> r.quantum_safe is Some && r.protocol_version is Hybrid
            && is_encapsulation(
            peer->0.ml_kem_public@,
            r.quantum_safe->0.ciphertext@,
            r.quantum_safe->0.shared_secret@,
        ),
{
}

/// Exchanges and signatures count under their own names with their own times, and as
/// fallbacks where they fell back.
pub proof fn exchanges_and_signatures_are_counted(s: PostQuantumStats, nanos: u64, fell_back: bool)
    ensures
        ({
            let t = s.with_exchange(nanos, fell_back);
            &&& t.key_exchanges == wrapped_sum(s.key_exchanges, 1)
            &&& t.key_exchange_time_ns == wrapped_sum(s.key_exchange_time_ns, nanos)
            &&& t.signatures == s.signatures
            &&& t.signature_time_ns == s.signature_time_ns
            &&& fell_back ==> t.fallbacks == wrapped_sum(s.fallbacks, 1)
            &&& !fell_back ==> t.fallbacks == s.fallbacks
        }),
        ({
            let t = s.with_signature(nanos, fell_back);
            &&& t.signatures == wrapped_sum(s.signatures, 1)
            &&& t.signature_time_ns == wrapped_sum(s.signature_time_ns, nanos)
            &&& t.key_exchanges == s.key_exchanges
            &&& t.key_exchange_time_ns == s.key_exchange_time_ns
            &&& fell_back ==> t.fallbacks == wrapped_sum(s.fallbacks, 1)
            &&& !fell_back ==> t.fallbacks == s.fallbacks
        }),
{
}

/// Time is told per exchange and per signature, each of its own; where nothing was
/// counted, as zero.
pub proof fn rates_are_told_per_unit(s: PostQuantumStats)
    ensures
        s.key_exchanges > 0 ==> s.avg_key_exchange_latency_ns_spec().is(s.key_exchange_time_ns as int, s.key_exchanges as int),
        s.key_exchanges == 0 ==> s.avg_key_exchange_latency_ns_spec().is(0, 1),
        s.signatures > 0 ==> s.avg_signature_latency_ns_spec().is(s.signature_time_ns as int, s.signatures as int),
        s.signatures == 0 ==> s.avg_signature_latency_ns_spec().is(0, 1),
{
}

/// Without fallbacks every exchange is safe, with nothing but fallbacks none is, and
/// each fallback takes one exchange off; where nothing was exchanged, nothing is told.
pub proof fn fallbacks_take_safety(s: PostQuantumStats)
    ensures
        s.key_exchanges > 0 ==> s.quantum_safe_utilization_spec().denom == s.key_exchanges
            && s.quantum_safe_utilization_spec().numer + s.fallbacks == s.key_exchanges,
        s.key_exchanges == 0 ==> s.quantum_safe_utilization_spec().numer == 0
            && s.quantum_safe_utilization_spec().denom == 1,
{
}

/// A secret key that matches holds its public key byte for byte, from byte 1152 on.
pub proof fn secret_keys_hold_their_public_keys(k: MlKemKeys, i: int)
    requires
        k.matched(),
        0 <= i < k.public_key@.len(),
    ensures
        k.secret_key@[1152 + i] == k.public_key@[i],
{
    assert(k.secret_key@.subrange(ML_KEM_PUBLIC_START as int, ML_KEM_PUBLIC_END as int)[i]
        == k.public_key@[i]);
}

/// Nothing counts before anything is done.
pub proof fn counters_start_at_zero()
    ensures
        PostQuantumStats::none().key_exchanges == 0,
        PostQuantumStats::none().key_exchange_time_ns == 0,
        PostQuantumStats::none().signatures == 0,
        PostQuantumStats::none().signature_time_ns == 0,
        PostQuantumStats::none().fallbacks == 0,
{
}

/// A signature is read by its length and by the five counters at bytes 2656 to 2660,
/// none of which may be above 101; nothing else in it matters.
pub proof fn signatures_are_read_by_their_counters(s: Seq<u8>, t: Seq<u8>, i: int)
    requires
        s.len() == 2701,
        t.len() == 2701,
        forall|j: int| 2656 <= j < 2661 ==> #[trigger] s[j] == t[j],
        0 <= i < 2701,
    ensures
        readable_signature(s) == readable_signature(t),
        2656 <= i < 2661 && s[i] > 101 ==> !readable_signature(s),
        s[2656] <= 101 && s[2657] <= 101 && s[2658] <= 101 && s[2659] <= 101 && s[2660] <= 101
            ==> readable_signature(s),
        !readable_signature(s.push(0)),
        !readable_signature(s.drop_last()),
{
    if readable_signature(s) {
        assert forall|j: int| 2656 <= j < 2661 implies #[trigger] t[j] <= 101 by {
            assert(s[j] == t[j]);
        }
    }
    if readable_signature(t) {
        assert forall|j: int| 2656 <= j < 2661 implies #[trigger] s[j] <= 101 by {
            assert(s[j] == t[j]);
        }
    }
}

/// An exchange or a signature leaves the transport as it was, enhanced or not, but for
/// what is counted, and so do two of them.
pub proof fn transports_keep_their_keys<B>(
    a: PostQuantumTransport<B>,
    b: PostQuantumTransport<B>,
    c: PostQuantumTransport<B>,
)
    requires
        PostQuantumTransport::same_keys(a, b),
        PostQuantumTransport::same_keys(b, c),
    ensures
        PostQuantumTransport::same_keys(a, c),
        PostQuantumTransport::same_keys(a, a),
        a.enhancement is None ==> c == a,
        a.enhancement is Some ==> c.enhancement is Some && c.enhancement->0.ml_kem_keypair
            == a.enhancement->0.ml_kem_keypair && c.enhancement->0.dilithium_keypair
            == a.enhancement->0.dilithium_keypair,
{
}

} // verus!
