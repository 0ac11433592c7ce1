//! The cryptographic primitives and encodings that come from outside crates.
//! Each function here makes one outside call; its contract is what the
//! outside crate documents, and what the call returns is given a name where
//! it is a function of the arguments alone.
use ed25519_dalek::{Signature, Signer, SigningKey, Verifier, VerifyingKey};
use hkdf::Hkdf;
use rand_core::OsRng;
use sha2::Sha256;
use sha3::{Digest, Sha3_256};
use crate::base32::base32_encoding;
use vstd::prelude::*;
use x25519_dalek::{PublicKey, StaticSecret};

verus! {

/// Whether `signature` is a valid Ed25519 signature of `message` under the
/// verifying key encoded by `public_key`.
pub uninterp spec fn ed25519_verifies(public_key: Seq<u8>, message: Seq<u8>, signature: Seq<u8>) -> bool;

/// The Ed25519 signature of `message` by the signing key whose secret bytes
/// are `secret`.
pub uninterp spec fn ed25519_signature(secret: Seq<u8>, message: Seq<u8>) -> Seq<u8>;

/// The Ed25519 verifying key, as its 32 bytes, of the signing key whose
/// secret bytes are `secret`.
pub uninterp spec fn ed25519_public(secret: Seq<u8>) -> Seq<u8>;

/// The X25519 public key of the secret scalar bytes `secret`.
pub uninterp spec fn x25519_public(secret: Seq<u8>) -> Seq<u8>;

/// The first `len` bytes of HKDF-SHA256 output keying material for salt
/// `salt`, input keying material `ikm` and context `info`.
pub uninterp spec fn hkdf_sha256_okm(salt: Seq<u8>, ikm: Seq<u8>, info: Seq<u8>, len: nat) -> Seq<u8>;

/// The SHA3-256 digest of `data`.
pub uninterp spec fn sha3_256_digest(data: Seq<u8>) -> [u8; 32];

/// Checks an Ed25519 signature with `ed25519_dalek`: decodes the verifying key
/// with `VerifyingKey::from_bytes` (a key that does not decode verifies
/// nothing) and calls `Verifier::verify`. The contract claims only that the
/// answer is a function of the three byte strings.
#[verifier::external_body]
pub(crate) fn ed25519_verify(public_key: &[u8; 32], message: &[u8], signature: &[u8; 64]) -> (ok: bool)
    ensures
        ok == ed25519_verifies(public_key@, message@, signature@),
{
    match VerifyingKey::from_bytes(public_key) {
        Ok(key) => key.verify(message, &Signature::from_bytes(signature)).is_ok(),
        Err(_) => false,
    }
}

/// Signs with `ed25519_dalek`: `SigningKey::from_bytes` on the secret bytes,
/// then `Signer::sign`, returned as its 64 bytes. Ed25519 signing is
/// deterministic, so the contract names the result as a function of the
/// secret and the message. The contract also claims Ed25519's correctness as
/// the crate implements it: the signature verifies, under `Verifier::verify`,
/// against the verifying key of the same secret (the signature's scalar is
/// reduced mod the group order, so canonical, and its `R` is what
/// verification recomputes from the compressed key that `verifying_key`
/// gives and `VerifyingKey::from_bytes` decodes).
#[verifier::external_body]
pub(crate) fn ed25519_sign(secret: &[u8; 32], message: &[u8]) -> (signature: [u8; 64])
    ensures
        signature@ == ed25519_signature(secret@, message@),
        ed25519_verifies(ed25519_public(secret@), message@, signature@),
{
    SigningKey::from_bytes(secret).sign(message).to_bytes()
}

/// The verifying key of a signing key with `ed25519_dalek`:
/// `SigningKey::from_bytes` on the secret bytes, then `verifying_key`,
/// returned as its 32 bytes.
#[verifier::external_body]
pub(crate) fn ed25519_public_key(secret: &[u8; 32]) -> (public: [u8; 32])
    ensures
        public@ == ed25519_public(secret@),
{
    SigningKey::from_bytes(secret).verifying_key().to_bytes()
}

/// Draws a fresh X25519 secret with `StaticSecret::random_from_rng` from the
/// operating system's generator, returned as its 32 bytes. Nothing is claimed
/// of the bytes: they are random.
#[verifier::external_body]
pub(crate) fn random_x25519_secret() -> (secret: [u8; 32]) {
    StaticSecret::random_from_rng(OsRng).to_bytes()
}

/// The X25519 public key of a secret, with `x25519_dalek`'s
/// `PublicKey::from(&StaticSecret)` on `StaticSecret::from(bytes)`, returned
/// as its 32 bytes.
#[verifier::external_body]
pub(crate) fn x25519_public_key(secret: &[u8; 32]) -> (public: [u8; 32])
    ensures
        public@ == x25519_public(secret@),
{
    PublicKey::from(&StaticSecret::from(*secret)).to_bytes()
}

/// HKDF with SHA-256 from the `hkdf` crate: `Hkdf::<Sha256>::new(Some(salt),
/// ikm)` then `expand(info, ..)` into `len` bytes. `expand` fails only when
/// more than 255 blocks of 32 bytes are asked for, which `requires` rules
/// out; the output then has the length asked for.
#[verifier::external_body]
pub(crate) fn hkdf_sha256(salt: &[u8], ikm: &[u8], info: &[u8], len: usize) -> (okm: Vec<u8>)
    requires
        len <= 255 * 32,
    ensures
        okm@ == hkdf_sha256_okm(salt@, ikm@, info@, len as nat),
        okm@.len() == len,
{
    let hk = Hkdf::<Sha256>::new(Some(salt), ikm);
    let mut okm = vec![0u8; len];
    hk.expand(info, &mut okm).expect("output length is at most 255 blocks");
    okm
}

/// SHA3-256 from the `sha3` crate (`new`, `update`, `finalize`), returned as
/// its 32 bytes.
#[verifier::external_body]
pub(crate) fn sha3_256(data: &[u8]) -> (digest: [u8; 32])
    ensures
        digest == sha3_256_digest(data@),
{
    let mut hasher = Sha3_256::new();
    hasher.update(data);
    hasher.finalize().into()
}

/// Base32 without padding from `data_encoding` (`BASE32_NOPAD.encode`):
/// RFC 4648 base32, most significant bit first, upper-case alphabet, no
/// padding characters, as `base32_encoding` states it. `encode_len`
/// asserts that the input has at most `usize::MAX / 512` bytes.
#[verifier::external_body]
pub(crate) fn base32_nopad_encode(data: &[u8]) -> (encoded: String)
    requires
        data@.len() <= usize::MAX / 512,
    ensures
        encoded@ == base32_encoding(data@),
{
    data_encoding::BASE32_NOPAD.encode(data)
}

} // verus!
