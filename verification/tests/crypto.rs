use ghostline::crypto::error::CryptoError;
use ghostline::crypto::local_identity::LocalIdentity;
use ghostline::crypto::{derive_peer_id, peer_id_from_bytes, verify_signature};

#[test]
fn test_generate_and_peer_id_stable() {
    let identity = LocalIdentity::generate();
    let id1 = identity.peer_id();
    let id2 = identity.peer_id();
    assert_eq!(id1, id2); // same identity = same peer_id always
    assert!(!id1.is_empty());
    println!("peer_id: {}", id1); // should be ~22 chars
}

#[test]
fn test_sign_and_verify() {
    let identity = LocalIdentity::generate();
    let message = b"ghostline handshake payload";

    let signature = identity.sign(message);
    let pub_key_bytes = identity.public_key_bytes();
    let sig_bytes: [u8; 64] = signature;

    let valid = verify_signature(&pub_key_bytes, message, &sig_bytes).unwrap();
    assert!(valid);
}

#[test]
fn test_peer_id_from_bytes_roundtrip() {
    let identity = LocalIdentity::generate();
    let pub_bytes = identity.public_key_bytes();
    let derived_id = peer_id_from_bytes(&pub_bytes).unwrap();
    assert_eq!(derived_id, identity.peer_id());
}

#[test]
fn key_file_bytes_roundtrip() {
    let first = LocalIdentity::generate();
    let stored = first.secret_key_bytes();
    let loaded = LocalIdentity::from_key_file_bytes(stored.to_vec()).unwrap();
    assert_eq!(first.peer_id(), loaded.peer_id());
    assert_eq!(first.public_key_bytes(), loaded.public_key_bytes());
}

#[test]
fn key_file_of_wrong_length_is_refused() {
    match LocalIdentity::from_key_file_bytes(vec![1, 2, 3]) {
        Err(CryptoError::InvalidKey(msg)) => assert_eq!(msg, "expected 32 bytes, got 3"),
        Err(other) => panic!("unexpected {:?}", other),
        Ok(_) => panic!("a 3-byte key was accepted"),
    }
}

#[test]
fn fixed_seed_gives_fixed_keys() {
    // RFC 8032, test 1
    let seed: Vec<u8> = (0..32)
        .map(|i| {
            u8::from_str_radix(
                &"9d61b19deffd5a60ba844af492ec2cc44449c5697b326919703bac031cae7f60"[2 * i..2 * i + 2],
                16,
            )
            .unwrap()
        })
        .collect();
    let id = LocalIdentity::from_key_file_bytes(seed).unwrap();
    let pk = id.public_key_bytes();
    let hex: String = pk.iter().map(|b| format!("{:02x}", b)).collect();
    assert_eq!(hex, "d75a980182b10ab7d54bfed3c964073a0ee172f3daa62325af021a68f707511a");
    assert_eq!(id.verifying_key(), pk);
    assert_eq!(id.peer_id(), "TbPEQbFhqkbQhG4Lkbp1ow");
    assert_eq!(derive_peer_id(&pk), id.peer_id());
}

#[test]
fn peer_id_is_base58_of_first_sixteen_bytes() {
    let mut key = [0u8; 32];
    key[..12].copy_from_slice(b"Hello World!");
    assert_eq!(derive_peer_id(&key), "9wWTEnNTUzJGD7cXwdvs8T");
    let mut key = [0u8; 32];
    key[2] = 5;
    assert_eq!(derive_peer_id(&key), "112qcc2ENUnTSxcfU1sFV");
    let mut key = [0u8; 32];
    for (i, b) in key.iter_mut().enumerate() {
        *b = i as u8;
    }
    assert_eq!(derive_peer_id(&key), "12drXXUifSrRnXLGbXg8E");
}

#[test]
fn tampered_signature_does_not_verify() {
    let identity = LocalIdentity::generate();
    let mut sig = identity.sign(b"payload");
    sig[0] ^= 1;
    assert!(!verify_signature(&identity.public_key_bytes(), b"payload", &sig).unwrap());
    let sig = identity.sign(b"payload");
    assert!(!verify_signature(&identity.public_key_bytes(), b"other payload", &sig).unwrap());
}

#[test]
fn undecompressible_key_is_refused() {
    let mut key = [0u8; 32];
    key[0] = 2;
    match peer_id_from_bytes(&key) {
        Err(CryptoError::InvalidKey(msg)) => {
            assert_eq!(msg, "signature error: Cannot decompress Edwards point")
        }
        other => panic!("unexpected {:?}", other),
    }
    match verify_signature(&key, b"m", &[0u8; 64]) {
        Err(CryptoError::InvalidKey(msg)) => {
            assert_eq!(msg, "signature error: Cannot decompress Edwards point")
        }
        other => panic!("unexpected {:?}", other),
    }
}

#[test]
fn crypto_error_descriptions() {
    assert_eq!(CryptoError::InvalidKey("x".into()).describe(), "Invalid key: x");
    assert_eq!(CryptoError::SignatureError("y".into()).describe(), "Signature error: y");
    let io = std::io::Error::new(std::io::ErrorKind::Other, "disk");
    let e: CryptoError = io.into();
    assert!(e.describe().starts_with("IO error: "));
}
