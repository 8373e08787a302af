//! AES-256-GCM with nonces derived from arbitrary nonce material.

use vstd::prelude::*;
use crate::common::error::{Result, crypto_error};
use crate::crypto::primitives::{spec_hkdf_sha256, hkdf_sha256, spec_aes_gcm_seal, spec_aes_gcm_open, aes256_gcm_encrypt, aes256_gcm_decrypt, AES_GCM_P_MAX, AES_GCM_TAG_LEN};

verus! {

/// HKDF salt for nonce derivation (`cypher-aead-nonce`).
pub const AEAD_NONCE_SALT: [u8; 17] = [99, 121, 112, 104, 101, 114, 45, 97, 101, 97, 100, 45, 110, 111, 110, 99, 101];

/// HKDF info for nonce derivation (`aes-gcm-nonce`).
pub const AEAD_NONCE_INFO: [u8; 13] = [97, 101, 115, 45, 103, 99, 109, 45, 110, 111, 110, 99, 101];

/// The 12-byte nonce derived from some nonce material.
pub open spec fn spec_derive_nonce(material: Seq<u8>) -> Seq<u8> {
    spec_hkdf_sha256(Some(AEAD_NONCE_SALT@), material, AEAD_NONCE_INFO@, 12)
}

/// The ciphertext `aead_encrypt` produces.
pub open spec fn spec_aead_seal(key: Seq<u8>, material: Seq<u8>, pt: Seq<u8>, aad: Seq<u8>) -> Seq<u8> {
    spec_aes_gcm_seal(key, spec_derive_nonce(material), pt, aad)
}

/// The plaintext `aead_decrypt` recovers, if any.
pub open spec fn spec_aead_open(key: Seq<u8>, material: Seq<u8>, ct: Seq<u8>, aad: Seq<u8>) -> Option<Seq<u8>> {
    spec_aes_gcm_open(key, spec_derive_nonce(material), ct, aad)
}

/// Derive a 12-byte nonce from arbitrary nonce material using HKDF.
pub fn derive_nonce(nonce_material: &[u8]) -> (nonce: [u8; 12])
    ensures
        nonce@ == spec_derive_nonce(nonce_material@),
{
    hkdf_sha256(Some(AEAD_NONCE_SALT.as_slice()), nonce_material, AEAD_NONCE_INFO.as_slice())
}

/// Encrypt plaintext with AES-256-GCM; the result carries the 16-byte tag.
/// It fails only for inputs over 2^36 bytes.
pub fn aead_encrypt(key: &[u8; 32], nonce_material: &[u8], plaintext: &[u8], aad: &[u8]) -> (r: Result<Vec<u8>>)
    ensures
        r is Ok <==> (plaintext@.len() <= AES_GCM_P_MAX && aad@.len() <= AES_GCM_P_MAX),
        r matches Ok(c) ==> c@ == spec_aead_seal(key@, nonce_material@, plaintext@, aad@)
            && c@.len() == plaintext@.len() + AES_GCM_TAG_LEN,
        r is Err ==> r->Err_0 is Crypto,
{
    let nonce = derive_nonce(nonce_material);
    match aes256_gcm_encrypt(key, &nonce, plaintext, aad) {
        Some(c) => Ok(c),
        None => Err(crypto_error("AES-GCM encryption failed")),
    }
}

/// Decrypt ciphertext (with its tag) with AES-256-GCM. What `aead_encrypt`
/// produced under the same key, nonce material and associated data decrypts
/// to the plaintext it was made from.
pub fn aead_decrypt(key: &[u8; 32], nonce_material: &[u8], ciphertext: &[u8], aad: &[u8]) -> (r: Result<Vec<u8>>)
    ensures
        r is Ok <==> spec_aead_open(key@, nonce_material@, ciphertext@, aad@) is Some,
        r matches Ok(p) ==> spec_aead_open(key@, nonce_material@, ciphertext@, aad@) == Some(p@),
        r is Err ==> r->Err_0 is Crypto,
        forall|p: Seq<u8>|
            #![trigger spec_aead_seal(key@, nonce_material@, p, aad@)]
            ciphertext@ == spec_aead_seal(key@, nonce_material@, p, aad@) && p.len() <= AES_GCM_P_MAX
                && aad@.len() <= AES_GCM_P_MAX ==> (r is Ok && r->Ok_0@ == p),
{
    let nonce = derive_nonce(nonce_material);
    match aes256_gcm_decrypt(key, &nonce, ciphertext, aad) {
        Some(p) => Ok(p),
        None => Err(crypto_error("AES-GCM decryption failed")),
    }
}

} // verus!
