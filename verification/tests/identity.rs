use cypher::common::error::Error;
use cypher::crypto::identity::{IdentityKeyPair, IdentitySeed, KeyBundle, SignedPreKey, KEY_BUNDLE_BYTES};

#[test]
fn generate_and_sign_verify() {
    let kp = IdentityKeyPair::generate();
    let data = b"hello world";
    let sig = kp.sign(data);
    assert!(kp.verify(data, &sig).is_ok());
}

#[test]
fn wrong_data_fails_verify() {
    let kp = IdentityKeyPair::generate();
    let sig = kp.sign(b"hello");
    assert!(kp.verify(b"world", &sig).is_err());
}

#[test]
fn key_bundle_verify() {
    let identity = IdentityKeyPair::generate();
    let spk = SignedPreKey::generate();
    let bundle = KeyBundle::new(&identity, &spk);
    assert!(bundle.verify().is_ok());
}

#[test]
fn key_bundle_roundtrip() {
    let identity = IdentityKeyPair::generate();
    let spk = SignedPreKey::generate();
    let bundle = KeyBundle::new(&identity, &spk);
    let bytes = bundle.to_bytes();
    assert_eq!(bytes.len(), KEY_BUNDLE_BYTES);
    let restored = KeyBundle::from_bytes(&bytes).unwrap();
    assert_eq!(bundle.identity_key, restored.identity_key);
    assert_eq!(bundle.identity_dh_key, restored.identity_dh_key);
    assert_eq!(bundle.signed_prekey, restored.signed_prekey);
    assert_eq!(bundle.prekey_signature, restored.prekey_signature);
    assert!(restored.verify().is_ok());
}

#[test]
fn peer_id_from_identity() {
    let kp = IdentityKeyPair::generate();
    let peer_id = kp.peer_id();
    assert_eq!(peer_id.as_bytes(), &kp.verifying_key());
}

#[test]
fn seed_deterministic_derivation() {
    let seed = IdentitySeed::generate();
    let kp1 = seed.derive_identity();
    let kp2 = seed.derive_identity();
    assert_eq!(kp1.peer_id().as_bytes(), kp2.peer_id().as_bytes());
    assert_eq!(kp1.dh_public_key(), kp2.dh_public_key());
}

#[test]
fn seed_mnemonic_roundtrip() {
    let seed = IdentitySeed::generate();
    let mnemonic = seed.to_mnemonic();
    let words: Vec<&str> = mnemonic.split_whitespace().collect();
    assert_eq!(words.len(), 24);

    let restored = IdentitySeed::from_mnemonic(&mnemonic).unwrap();
    assert_eq!(seed.0, restored.0);

    let kp1 = seed.derive_identity();
    let kp2 = restored.derive_identity();
    assert_eq!(kp1.peer_id().as_bytes(), kp2.peer_id().as_bytes());
}

#[test]
fn seed_storage_key_deterministic() {
    let seed = IdentitySeed::generate();
    let sek1 = seed.derive_storage_key();
    let sek2 = seed.derive_storage_key();
    assert_eq!(sek1, sek2);
    let kp = seed.derive_identity();
    assert_ne!(&sek1, &kp.verifying_key());
}

#[test]
fn different_seeds_different_identities() {
    let seed1 = IdentitySeed::generate();
    let seed2 = IdentitySeed::generate();
    let kp1 = seed1.derive_identity();
    let kp2 = seed2.derive_identity();
    assert_ne!(kp1.peer_id().as_bytes(), kp2.peer_id().as_bytes());
}

#[test]
fn invalid_mnemonic_fails() {
    assert!(IdentitySeed::from_mnemonic("not a valid mnemonic").is_err());
}

#[test]
fn invalid_mnemonic_is_crypto_error() {
    assert!(matches!(IdentitySeed::from_mnemonic("abandon abandon"), Err(Error::Crypto(_))));
}

#[test]
fn twelve_word_mnemonic_is_rejected_as_wrong_length() {
    // A valid 12-word phrase encodes 16 bytes of entropy, not 32.
    let phrase = "abandon abandon abandon abandon abandon abandon abandon abandon abandon abandon abandon about";
    assert!(matches!(IdentitySeed::from_mnemonic(phrase), Err(Error::Crypto(_))));
}

#[test]
fn known_seed_mnemonic() {
    let seed = IdentitySeed([0u8; 32]);
    let m = seed.to_mnemonic();
    assert!(m.starts_with("abandon abandon"));
    assert!(m.ends_with(" art"));
    assert_eq!(IdentitySeed::from_mnemonic(&m).unwrap().0, [0u8; 32]);
}

#[test]
fn from_seed_matches_derive_identity() {
    let seed = IdentitySeed([5u8; 32]);
    let a = IdentityKeyPair::from_seed(&seed);
    let b = seed.derive_identity();
    assert_eq!(a.signing_key, b.signing_key);
    assert_eq!(a.dh_secret, b.dh_secret);
    assert_ne!(a.signing_key, a.dh_secret);
}

#[test]
fn key_bundle_from_short_bytes_fails() {
    assert!(matches!(KeyBundle::from_bytes(&[0u8; 159]), Err(Error::Crypto(_))));
}

#[test]
fn key_bundle_with_invalid_identity_key_fails() {
    // The y-coordinate 2 (little-endian) does not decompress to a curve point.
    let mut bytes = [0u8; 160];
    bytes[0] = 2;
    assert!(matches!(KeyBundle::from_bytes(&bytes), Err(Error::Crypto(_))));
}

#[test]
fn tampered_bundle_signature_fails() {
    let identity = IdentityKeyPair::generate();
    let spk = SignedPreKey::generate();
    let mut bundle = KeyBundle::new(&identity, &spk);
    bundle.prekey_signature[0] ^= 0xFF;
    assert!(matches!(bundle.verify(), Err(Error::Crypto(_))));
}

#[test]
fn verify_with_key_uses_given_key() {
    let a = IdentityKeyPair::generate();
    let b = IdentityKeyPair::generate();
    let sig = a.sign(b"msg");
    assert!(IdentityKeyPair::verify_with_key(&a.verifying_key(), b"msg", &sig).is_ok());
    assert!(IdentityKeyPair::verify_with_key(&b.verifying_key(), b"msg", &sig).is_err());
}

#[test]
fn ed25519_public_key_matches_dalek() {
    let kp = IdentityKeyPair { signing_key: [7u8; 32], dh_secret: [1u8; 32] };
    let expected = ed25519_dalek::SigningKey::from_bytes(&[7u8; 32]).verifying_key().to_bytes();
    assert_eq!(kp.verifying_key(), expected);
}
