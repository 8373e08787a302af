use cypher::crypto::aead::{aead_decrypt, aead_encrypt, derive_nonce};
use cypher::common::error::Error;

#[test]
fn encrypt_decrypt_roundtrip() {
    let key = [42u8; 32];
    let nonce_material = b"test-nonce-material";
    let plaintext = b"hello world";
    let aad = b"additional data";

    let ciphertext = aead_encrypt(&key, nonce_material, plaintext, aad).unwrap();
    let decrypted = aead_decrypt(&key, nonce_material, &ciphertext, aad).unwrap();

    assert_eq!(decrypted, plaintext);
}

#[test]
fn wrong_key_fails() {
    let key = [42u8; 32];
    let wrong_key = [43u8; 32];
    let nonce_material = b"nonce";
    let plaintext = b"secret";
    let aad = b"";

    let ciphertext = aead_encrypt(&key, nonce_material, plaintext, aad).unwrap();
    let result = aead_decrypt(&wrong_key, nonce_material, &ciphertext, aad);

    assert!(result.is_err());
}

#[test]
fn wrong_aad_fails() {
    let key = [42u8; 32];
    let nonce_material = b"nonce";
    let plaintext = b"secret";

    let ciphertext = aead_encrypt(&key, nonce_material, plaintext, b"aad1").unwrap();
    let result = aead_decrypt(&key, nonce_material, &ciphertext, b"aad2");

    assert!(result.is_err());
}

#[test]
fn ciphertext_carries_tag_and_differs_from_plaintext() {
    let ct = aead_encrypt(&[1u8; 32], b"n", b"abc", b"").unwrap();
    assert_eq!(ct.len(), 3 + 16);
    assert_ne!(&ct[..3], b"abc");
}

#[test]
fn decrypt_error_is_crypto_error() {
    let r = aead_decrypt(&[1u8; 32], b"n", &[0u8; 20], b"");
    assert!(matches!(r, Err(Error::Crypto(_))));
}

#[test]
fn nonce_depends_on_material() {
    assert_eq!(derive_nonce(b"a"), derive_nonce(b"a"));
    assert_ne!(derive_nonce(b"a"), derive_nonce(b"b"));
}
