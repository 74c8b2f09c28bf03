//! Hash and signature primitives, taken from outside crates.

use crate::words::U256;
use vstd::prelude::*;

verus! {

/// The 32-byte Keccak-256 digest of `data`.
pub uninterp spec fn keccak256_digest(data: Seq<u8>) -> Seq<u8>;

/// `alloy_primitives::keccak256`: the Keccak-256 digest of the bytes. Nothing is claimed of the
/// digest but that it is 32 bytes long and depends on the bytes alone.
#[verifier::external_body]
fn keccak256_array(data: &[u8]) -> (r: [u8; 32])
    ensures
        r@ == keccak256_digest(data@),
{
    alloy_primitives::keccak256(data).0
}

/// The Keccak-256 digest of `data`, as a word.
pub open spec fn keccak256_word(data: Seq<u8>) -> U256 {
    U256::from_be(keccak256_digest(data))
}

/// Hashes `data` to a word.
pub fn keccak256(data: &[u8]) -> (r: U256)
    ensures
        r == keccak256_word(data@),
{
    let digest = keccak256_array(data);
    U256::from_be_slice(digest.as_slice())
}

/// Whether Ed25519 verification accepts `signature` on `message` under the key `public_key`.
pub uninterp spec fn ed25519_accepts(
    public_key: Seq<u8>,
    signature: Seq<u8>,
    message: Seq<u8>,
) -> bool;

/// The Ed25519 signature on `message` by `secret`.
pub uninterp spec fn ed25519_signature(secret: Seq<u8>, message: Seq<u8>) -> Seq<u8>;

/// The Ed25519 public key that belongs to `secret`.
pub uninterp spec fn ed25519_public(secret: Seq<u8>) -> Seq<u8>;

/// `ed25519_dalek::VerifyingKey::verify`, with a key made by `VerifyingKey::from_bytes`: whether
/// the signature is accepted. Bytes that are no key accept nothing. Claimed is only that the answer
/// depends on the three arguments alone.
#[verifier::external_body]
fn dalek_verify(public_key: &[u8; 32], signature: &[u8; 64], message: &[u8]) -> (r: bool)
    ensures
        r == ed25519_accepts(public_key@, signature@, message@),
{
    let signature = ed25519_dalek::Signature::from_bytes(signature);
    match ed25519_dalek::VerifyingKey::from_bytes(public_key) {
        Ok(key) => ed25519_dalek::Verifier::verify(&key, message, &signature).is_ok(),
        Err(_) => false,
    }
}

/// `ed25519_dalek::SigningKey::sign`, with a key made by `SigningKey::from_bytes`: the signature on
/// the message, which depends on the secret and the message alone and is accepted under the public
/// key of the secret.
#[verifier::external_body]
fn dalek_sign(secret: &[u8; 32], message: &[u8]) -> (r: [u8; 64])
    ensures
        r@ == ed25519_signature(secret@, message@),
        ed25519_accepts(ed25519_public(secret@), r@, message@),
{
    let key = ed25519_dalek::SigningKey::from_bytes(secret);
    ed25519_dalek::Signer::sign(&key, message).to_bytes()
}

/// `ed25519_dalek::SigningKey::verifying_key`, with a key made by `SigningKey::from_bytes`: the
/// public key of a secret, which depends on the secret alone.
#[verifier::external_body]
fn dalek_public_key(secret: &[u8; 32]) -> (r: [u8; 32])
    ensures
        r@ == ed25519_public(secret@),
{
    ed25519_dalek::SigningKey::from_bytes(secret).verifying_key().to_bytes()
}

/// Whether a signature is accepted.
pub fn ed25519_verify(public_key: &[u8; 32], signature: &[u8; 64], message: &[u8]) -> (r: bool)
    ensures
        r == ed25519_accepts(public_key@, signature@, message@),
{
    dalek_verify(public_key, signature, message)
}

/// Signs a message. The signature is accepted under the public key of the secret.
pub fn ed25519_sign(secret: &[u8; 32], message: &[u8]) -> (r: [u8; 64])
    ensures
        r@ == ed25519_signature(secret@, message@),
        ed25519_accepts(ed25519_public(secret@), r@, message@),
{
    dalek_sign(secret, message)
}

/// The public key of a secret.
pub fn ed25519_public_key(secret: &[u8; 32]) -> (r: [u8; 32])
    ensures
        r@ == ed25519_public(secret@),
{
    dalek_public_key(secret)
}

} // verus!
