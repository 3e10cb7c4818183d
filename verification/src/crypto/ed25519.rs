//! The Ed25519 operations of `ed25519-dalek` that the identity code uses,
//! taken on plain 32-byte secret keys, 32-byte public keys and 64-byte
//! signatures.

use ed25519_dalek::{Signer, SigningKey, Verifier, VerifyingKey};
use rand::rngs::OsRng;
use vstd::prelude::*;

verus! {

/// The public key that Ed25519 derives from a secret key.
pub uninterp spec fn ed25519_public_key(secret: Seq<u8>) -> Seq<u8>;

/// The Ed25519 signature of a message under a secret key (Ed25519 signing
/// is deterministic).
pub uninterp spec fn ed25519_signature(secret: Seq<u8>, message: Seq<u8>) -> Seq<u8>;

/// Whether 32 bytes decompress to a point of the curve, i.e. are a usable
/// public key.
pub uninterp spec fn ed25519_key_decompresses(public_key: Seq<u8>) -> bool;

/// Whether a signature of a message checks out under a public key.
pub uninterp spec fn ed25519_signature_verifies(
    public_key: Seq<u8>,
    message: Seq<u8>,
    signature: Seq<u8>,
) -> bool;

/// The text of the error that `VerifyingKey::from_bytes` returns on bytes
/// that do not decompress.
pub open spec fn point_decompression_error() -> Seq<char> {
    "signature error: Cannot decompress Edwards point"@
}

/// `SigningKey::generate` with the operating system's random source; the
/// secret key it returns is random, so nothing is claimed of it.
#[verifier::external_body]
pub(crate) fn generate_secret_key() -> (secret: [u8; 32]) {
    SigningKey::generate(&mut OsRng).to_bytes()
}

/// `SigningKey::verifying_key`, as bytes: the public key of the secret key.
/// The signing key keeps its verifying key as a decompressed point, so its
/// bytes decompress again.
#[verifier::external_body]
pub(crate) fn public_key_of(secret: &[u8; 32]) -> (public_key: [u8; 32])
    ensures
        public_key@ == ed25519_public_key(secret@),
        ed25519_key_decompresses(public_key@),
{
    SigningKey::from_bytes(secret).verifying_key().to_bytes()
}

/// `Signer::sign` of a `SigningKey`, as bytes: the Ed25519 signature of the
/// message, which verifies under the key's own public key.
#[verifier::external_body]
pub(crate) fn sign_with(secret: &[u8; 32], message: &[u8]) -> (signature: [u8; 64])
    ensures
        signature@ == ed25519_signature(secret@, message@),
        ed25519_signature_verifies(ed25519_public_key(secret@), message@, signature@),
{
    SigningKey::from_bytes(secret).sign(message).to_bytes()
}

/// `VerifyingKey::from_bytes`: succeeds exactly on bytes that decompress,
/// and otherwise reports the decompression error's text.
#[verifier::external_body]
pub(crate) fn check_public_key(public_key: &[u8; 32]) -> (res: Result<(), String>)
    ensures
        res is Ok <==> ed25519_key_decompresses(public_key@),
        res matches Err(text) ==> text@ == point_decompression_error(),
{
    match VerifyingKey::from_bytes(public_key) {
        Ok(_) => Ok(()),
        Err(e) => Err(e.to_string()),
    }
}

/// `Verifier::verify` of the `VerifyingKey` with these bytes (which must
/// decompress) on the `Signature` with these 64 bytes: whether the
/// signature of the message checks out under the key.
#[verifier::external_body]
pub(crate) fn verify_with(public_key: &[u8; 32], message: &[u8], signature: &[u8; 64]) -> (valid:
    bool)
    requires
        ed25519_key_decompresses(public_key@),
    ensures
        valid == ed25519_signature_verifies(public_key@, message@, signature@),
{
    match VerifyingKey::from_bytes(public_key) {
        Ok(key) => key.verify(message, &ed25519_dalek::Signature::from_bytes(signature)).is_ok(),
        Err(_) => false,
    }
}

} // verus!
