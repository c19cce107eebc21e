//! The cryptographic functions of outside crates that the library calls.
use aes_gcm::aead::Aead;
use aes_gcm::{Aes256Gcm, KeyInit, Nonce};
use ed25519_dalek::{Signature, Verifier, VerifyingKey};
use hkdf::Hkdf;
use sha2::Sha256;
use vstd::prelude::*;

verus! {

/// The longest message that AES-GCM encrypts, in bytes: 2^36 - 32.
pub const MAX_MESSAGE_BYTES: u64 = 0xf_ffff_ffe0;

/// Bytes of an AES-GCM tag.
pub const TAG_BYTES: usize = 16;

/// The longest output of HKDF with SHA-256, in bytes: 255 blocks of 32.
pub const MAX_HKDF_BYTES: usize = 8160;

// ---------------------------------------------------------------------------
// AES-256-GCM
// ---------------------------------------------------------------------------

/// What `Aes256Gcm::encrypt` makes of a key, a nonce and a message.
pub uninterp spec fn aes_gcm_sealed(key: Seq<u8>, nonce: Seq<u8>, message: Seq<u8>) -> Seq<u8>;

/// What `Aes256Gcm::decrypt` makes of a key, a nonce and a ciphertext, if its tag
/// is the right one.
pub uninterp spec fn aes_gcm_opened(key: Seq<u8>, nonce: Seq<u8>, ciphertext: Seq<u8>) -> Option<
    Seq<u8>,
>;

/// `Aes256Gcm::encrypt` without associated data: the ciphertext, as long as the
/// message, followed by a tag. It is a function of key, nonce and message, and
/// `Aes256Gcm::decrypt` with the same key and nonce gives the message back.
#[verifier::external_body]
pub(crate) fn aes_gcm_encrypt(key: &[u8; 32], nonce: &[u8; 12], message: &[u8]) -> (sealed: Vec<u8>)
    requires
        message@.len() <= MAX_MESSAGE_BYTES,
    ensures
        sealed@ == aes_gcm_sealed(key@, nonce@, message@),
        sealed@.len() == message@.len() + TAG_BYTES,
        aes_gcm_opened(key@, nonce@, sealed@) == Some(message@),
{
    let cipher = Aes256Gcm::new(key.into());
    cipher.encrypt(Nonce::from_slice(nonce), message).unwrap()
}

/// `Aes256Gcm::decrypt` without associated data: the message, if the tag is the
/// right one for key, nonce and ciphertext; nothing otherwise, in particular for
/// a ciphertext shorter than a tag.
#[verifier::external_body]
pub(crate) fn aes_gcm_decrypt(key: &[u8; 32], nonce: &[u8; 12], ciphertext: &[u8]) -> (message: Option<
    Vec<u8>,
>)
    requires
        ciphertext@.len() <= MAX_MESSAGE_BYTES + TAG_BYTES,
    ensures
        match message {
            Some(m) => {
                &&& aes_gcm_opened(key@, nonce@, ciphertext@) == Some(m@)
                &&& m@.len() + TAG_BYTES == ciphertext@.len()
            },
            None => aes_gcm_opened(key@, nonce@, ciphertext@) is None,
        },
{
    let cipher = Aes256Gcm::new(key.into());
    cipher.decrypt(Nonce::from_slice(nonce), ciphertext).ok()
}

// ---------------------------------------------------------------------------
// BLAKE3
// ---------------------------------------------------------------------------

/// What `blake3::hash` makes of some bytes.
pub uninterp spec fn blake3_digest(input: Seq<u8>) -> Seq<u8>;

/// `blake3::hash`: the 32 bytes of the digest, a function of the input.
#[verifier::external_body]
pub(crate) fn blake3_hash(input: &[u8]) -> (digest: [u8; 32])
    ensures
        digest@ == blake3_digest(input@),
{
    blake3::hash(input).into()
}

// ---------------------------------------------------------------------------
// HKDF with SHA-256
// ---------------------------------------------------------------------------

/// What `Hkdf::<Sha256>::new` and `Hkdf::expand` make of a salt, if there is one,
/// key material, info and an output length.
pub uninterp spec fn hkdf_sha256(
    salt: Option<Seq<u8>>,
    key_material: Seq<u8>,
    info: Seq<u8>,
    len: nat,
) -> Seq<u8>;

/// The view of an optional salt.
pub open spec fn salt_view(salt: Option<&[u8]>) -> Option<Seq<u8>> {
    match salt {
        Some(s) => Some(s@),
        None => None,
    }
}

/// `Hkdf::<Sha256>::new` and `Hkdf::expand`: so many bytes as asked for, a
/// function of the arguments; nothing where more than 255 blocks are asked for.
#[verifier::external_body]
pub(crate) fn hkdf_expand(salt: Option<&[u8]>, key_material: &[u8], info: &[u8], len: usize) -> (okm:
    Option<Vec<u8>>)
    requires
        len <= isize::MAX,
    ensures
        okm is Some <==> len <= MAX_HKDF_BYTES,
        okm is Some ==> {
            &&& okm->0@.len() == len
            &&& okm->0@ == hkdf_sha256(salt_view(salt), key_material@, info@, len as nat)
        },
{
    let mut output = vec![0u8; len];
    match Hkdf::<Sha256>::new(salt, key_material).expand(info, &mut output) {
        Ok(()) => Some(output),
        Err(_) => None,
    }
}

// ---------------------------------------------------------------------------
// Ed25519
// ---------------------------------------------------------------------------

/// Whether `VerifyingKey::from_bytes` takes a public key and `Verifier::verify`
/// with it accepts a signature of a message.
pub uninterp spec fn ed25519_valid(public_key: Seq<u8>, message: Seq<u8>, signature: Seq<u8>) -> bool;

/// `VerifyingKey::verify`: whether the bytes are a public key that accepts the
/// signature of the message.
#[verifier::external_body]
pub(crate) fn ed25519_verify(public_key: &[u8; 32], message: &[u8], signature: &[u8; 64]) -> (ok: bool)
    ensures
        ok == ed25519_valid(public_key@, message@, signature@),
{
    match VerifyingKey::from_bytes(public_key) {
        Ok(key) => key.verify(message, &Signature::from_bytes(signature)).is_ok(),
        Err(_) => false,
    }
}

} // verus!
