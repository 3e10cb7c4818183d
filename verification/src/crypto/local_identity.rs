//! The local identity: the Ed25519 secret key of this instance.

use vstd::prelude::*;

use crate::crypto::derive_peer_id;
use crate::crypto::ed25519::{
    ed25519_key_decompresses, ed25519_public_key, ed25519_signature, ed25519_signature_verifies,
    generate_secret_key, public_key_of, sign_with,
};
use crate::crypto::error::CryptoError;
use crate::crypto::peer_id_text;

verus! {

/// The full local identity; the secret key lives here and is handed out
/// only to be stored.
pub struct LocalIdentity {
    secret_key: [u8; 32],
}

impl LocalIdentity {
    /// The 32-byte secret key seed.
    pub closed spec fn secret(&self) -> Seq<u8> {
        self.secret_key@
    }

    /// A brand new random identity.
    pub fn generate() -> (id: Self)
        ensures
            id.secret().len() == 32,
    {
        LocalIdentity { secret_key: generate_secret_key() }
    }

    /// The identity whose secret key seed is `bytes`, as read from a key
    /// file; `InvalidKey` unless there are exactly 32 of them.
    pub fn from_key_file_bytes(bytes: Vec<u8>) -> (res: Result<Self, CryptoError>)
        ensures
            res is Ok <==> bytes@.len() == 32,
            res matches Ok(id) ==> id.secret() == bytes@,
            res matches Err(e) ==> e matches CryptoError::InvalidKey(text) && text@
                == crate::text::key_length_message(bytes@.len()),
    {
        if bytes.len() != 32 {
            return Err(CryptoError::InvalidKey(crate::text::key_length_error(bytes.len())));
        }
        let mut seed = [0u8; 32];
        let mut i: usize = 0;
        while i < 32
            invariant
                i <= 32,
                bytes@.len() == 32,
                forall|j: int| 0 <= j < i ==> seed@[j] == bytes@[j],
            decreases 32 - i,
        {
            seed[i] = bytes[i];
            i = i + 1;
        }
        assert(seed@ =~= bytes@);
        Ok(LocalIdentity { secret_key: seed })
    }

    /// The secret key seed, for storing the identity.
    pub fn secret_key_bytes(&self) -> (bytes: [u8; 32])
        ensures
            bytes@ == self.secret(),
    {
        self.secret_key
    }

    /// The public verifying key, safe to share freely.
    pub fn verifying_key(&self) -> (key: [u8; 32])
        ensures
            key@ == ed25519_public_key(self.secret()),
            ed25519_key_decompresses(key@),
    {
        public_key_of(&self.secret_key)
    }

    /// The peer id derived from the public key.
    pub fn peer_id(&self) -> (id: String)
        ensures
            id@ == peer_id_text(ed25519_public_key(self.secret())),
    {
        derive_peer_id(&public_key_of(&self.secret_key))
    }

    /// Signs arbitrary bytes; the signature verifies under this identity's
    /// public key.
    pub fn sign(&self, message: &[u8]) -> (signature: [u8; 64])
        ensures
            signature@ == ed25519_signature(self.secret(), message@),
            ed25519_signature_verifies(ed25519_public_key(self.secret()), message@, signature@),
    {
        sign_with(&self.secret_key, message)
    }

    /// The raw public key bytes sent in the handshake packet.
    pub fn public_key_bytes(&self) -> (key: [u8; 32])
        ensures
            key@ == ed25519_public_key(self.secret()),
            ed25519_key_decompresses(key@),
    {
        public_key_of(&self.secret_key)
    }
}

} // verus!
