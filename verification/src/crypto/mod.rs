//! Peer identity: Ed25519 keys, the peer id derived from a public key, and
//! signature checks.

pub mod base58;
pub mod ed25519;
pub mod error;
pub mod local_identity;

use vstd::prelude::*;

use crate::crypto::base58::{base58_encode, base58_text, lemma_base58_nonempty};
use crate::crypto::ed25519::{
    check_public_key, ed25519_key_decompresses, ed25519_signature_verifies, verify_with,
    point_decompression_error,
};
use crate::crypto::error::CryptoError;

verus! {

/// The peer id of a public key: the Base58 text of its first 16 bytes.
pub open spec fn peer_id_text(public_key: Seq<u8>) -> Seq<char> {
    base58_text(public_key.take(16))
}

/// Derives the short, stable peer id of a public key: the first 16 of its
/// 32 bytes, Base58 encoded.
pub fn derive_peer_id(public_key: &[u8; 32]) -> (id: String)
    ensures
        id@ == peer_id_text(public_key@),
{
    let bytes = public_key.as_slice();
    let first = vstd::slice::slice_subrange(bytes, 0, 16);
    assert(first@ =~= public_key@.take(16));
    base58_encode(first)
}

/// The peer id of public key bytes received in a handshake, or
/// `InvalidKey` with the key error's text where the bytes are not a usable
/// Ed25519 public key.
pub fn peer_id_from_bytes(public_key_bytes: &[u8; 32]) -> (res: Result<String, CryptoError>)
    ensures
        res is Ok <==> ed25519_key_decompresses(public_key_bytes@),
        res matches Ok(id) ==> id@ == peer_id_text(public_key_bytes@),
        res matches Err(e) ==> e matches CryptoError::InvalidKey(text) && text@
            == point_decompression_error(),
{
    match check_public_key(public_key_bytes) {
        Ok(()) => Ok(derive_peer_id(public_key_bytes)),
        Err(text) => Err(CryptoError::InvalidKey(text)),
    }
}

/// Whether `signature_bytes` is a valid Ed25519 signature of `message`
/// under the public key; `InvalidKey` where the key bytes are not a usable
/// public key.
pub fn verify_signature(
    public_key_bytes: &[u8; 32],
    message: &[u8],
    signature_bytes: &[u8; 64],
) -> (res: Result<bool, CryptoError>)
    ensures
        res is Ok <==> ed25519_key_decompresses(public_key_bytes@),
        res matches Ok(valid) ==> valid == ed25519_signature_verifies(
            public_key_bytes@,
            message@,
            signature_bytes@,
        ),
        res matches Err(e) ==> e matches CryptoError::InvalidKey(text) && text@
            == point_decompression_error(),
{
    match check_public_key(public_key_bytes) {
        Ok(()) => Ok(verify_with(public_key_bytes, message, signature_bytes)),
        Err(text) => Err(CryptoError::InvalidKey(text)),
    }
}

/// The peer id of a 32-byte public key is never empty.
pub proof fn lemma_peer_id_nonempty(public_key: Seq<u8>)
    requires
        public_key.len() == 32,
    ensures
        peer_id_text(public_key).len() > 0,
{
    lemma_base58_nonempty(public_key.take(16));
}

} // verus!
