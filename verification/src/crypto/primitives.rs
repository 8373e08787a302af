//! The cryptographic and random primitives this library takes from outside
//! crates. Each function here is trusted: its contract is believed, not
//! proved. Results that take pages to specify are given names (uninterpreted
//! spec functions) and the contracts say only how a call relates to them.

use vstd::prelude::*;
use aes_gcm::aead::{Aead, KeyInit};
use ed25519_dalek::{Signer, Verifier};
use hkdf::Hkdf;
use rand::RngCore;
use rand::Rng;
use rand::seq::SliceRandom;
use sha2::Sha256;

verus! {

/// Largest plaintext (and associated data) AES-GCM accepts, in bytes.
pub const AES_GCM_P_MAX: u64 = 68719476736;

/// Length of the AES-GCM authentication tag, in bytes.
pub const AES_GCM_TAG_LEN: usize = 16;

/// Output of HKDF-SHA256 (extract with `salt`, then expand with `info` to `len` bytes).
pub uninterp spec fn spec_hkdf_sha256(salt: Option<Seq<u8>>, ikm: Seq<u8>, info: Seq<u8>, len: nat) -> Seq<u8>;

/// The view of an optional byte slice.
pub open spec fn opt_bytes(s: Option<&[u8]>) -> Option<Seq<u8>> {
    match s {
        Some(b) => Some(b@),
        None => None,
    }
}

/// HKDF-SHA256 from the `hkdf` and `sha2` crates: `Hkdf::new(salt, ikm)`
/// followed by `expand(info, N bytes)`. The contract names the output; HKDF
/// only fails when more than 255 * 32 bytes are asked for, which `requires`
/// rules out.
#[verifier::external_body]
pub fn hkdf_sha256<const N: usize>(salt: Option<&[u8]>, ikm: &[u8], info: &[u8]) -> (okm: [u8; N])
    requires
        N <= 8160,
    ensures
        okm@ == spec_hkdf_sha256(opt_bytes(salt), ikm@, info@, N as nat),
{
    let hk = Hkdf::<Sha256>::new(salt, ikm);
    let mut okm = [0u8; N];
    hk.expand(info, &mut okm).expect("output length within HKDF-SHA256 bounds");
    okm
}

/// AES-256-GCM ciphertext (with the 16-byte tag appended) of `pt` under `key`,
/// `nonce` and `aad`.
pub uninterp spec fn spec_aes_gcm_seal(key: Seq<u8>, nonce: Seq<u8>, pt: Seq<u8>, aad: Seq<u8>) -> Seq<u8>;

/// AES-256-GCM decryption: the plaintext, or `None` when the tag does not verify.
pub uninterp spec fn spec_aes_gcm_open(key: Seq<u8>, nonce: Seq<u8>, ct: Seq<u8>, aad: Seq<u8>) -> Option<Seq<u8>>;

/// `Aes256Gcm::encrypt` from `aes-gcm`. It fails exactly when the plaintext
/// or the associated data exceeds 2^36 bytes (see `encrypt_in_place_detached`);
/// otherwise the ciphertext is the named seal, 16 bytes longer than `pt`.
#[verifier::external_body]
pub fn aes256_gcm_encrypt(key: &[u8; 32], nonce: &[u8; 12], pt: &[u8], aad: &[u8]) -> (r: Option<Vec<u8>>)
    ensures
        r is Some <==> (pt@.len() <= AES_GCM_P_MAX && aad@.len() <= AES_GCM_P_MAX),
        r matches Some(c) ==> c@ == spec_aes_gcm_seal(key@, nonce@, pt@, aad@)
            && c@.len() == pt@.len() + AES_GCM_TAG_LEN,
{
    let cipher = aes_gcm::Aes256Gcm::new(key.into());
    cipher.encrypt(aes_gcm::Nonce::from_slice(nonce), aes_gcm::aead::Payload { msg: pt, aad }).ok()
}

/// `Aes256Gcm::decrypt` from `aes-gcm`. The result is the named opening; an
/// AEAD opens what it sealed under the same key, nonce and associated data.
/// Nothing is said of other inputs (a wrong key or tampered ciphertext fails
/// only with overwhelming probability).
#[verifier::external_body]
pub fn aes256_gcm_decrypt(key: &[u8; 32], nonce: &[u8; 12], ct: &[u8], aad: &[u8]) -> (r: Option<Vec<u8>>)
    ensures
        r is Some <==> spec_aes_gcm_open(key@, nonce@, ct@, aad@) is Some,
        r matches Some(p) ==> spec_aes_gcm_open(key@, nonce@, ct@, aad@) == Some(p@),
        forall|p: Seq<u8>|
            #![trigger spec_aes_gcm_seal(key@, nonce@, p, aad@)]
            ct@ == spec_aes_gcm_seal(key@, nonce@, p, aad@) && p.len() <= AES_GCM_P_MAX
                && aad@.len() <= AES_GCM_P_MAX ==> (r is Some && r.unwrap()@ == p),
{
    let cipher = aes_gcm::Aes256Gcm::new(key.into());
    cipher.decrypt(aes_gcm::Nonce::from_slice(nonce), aes_gcm::aead::Payload { msg: ct, aad }).ok()
}

/// The X25519 public key of a (clamped) 32-byte secret.
pub uninterp spec fn spec_x25519_public(secret: Seq<u8>) -> Seq<u8>;

/// The X25519 shared point of a secret and a peer's public key.
pub uninterp spec fn spec_x25519_dh(secret: Seq<u8>, public: Seq<u8>) -> Seq<u8>;

/// `PublicKey::from(&StaticSecret::from(secret))` from `x25519-dalek`.
#[verifier::external_body]
pub fn x25519_public_key(secret: &[u8; 32]) -> (public: [u8; 32])
    ensures
        public@ == spec_x25519_public(secret@),
{
    let s = x25519_dalek::StaticSecret::from(*secret);
    x25519_dalek::PublicKey::from(&s).to_bytes()
}

/// `StaticSecret::diffie_hellman` from `x25519-dalek`. Besides naming the
/// result, the contract states Diffie-Hellman agreement: when `public` is the
/// public key of `other`, the result is what `other` computes with our public
/// key (as the crate's documentation shows for `x25519`).
#[verifier::external_body]
pub fn x25519_diffie_hellman(secret: &[u8; 32], public: &[u8; 32]) -> (shared: [u8; 32])
    ensures
        shared@ == spec_x25519_dh(secret@, public@),
        forall|other: Seq<u8>|
            #![trigger spec_x25519_public(other)]
            public@ == spec_x25519_public(other) ==> shared@ == spec_x25519_dh(
                other,
                spec_x25519_public(secret@),
            ),
{
    let s = x25519_dalek::StaticSecret::from(*secret);
    s.diffie_hellman(&x25519_dalek::PublicKey::from(*public)).to_bytes()
}

/// The Ed25519 verifying key (compressed point) of a 32-byte secret seed.
pub uninterp spec fn spec_ed25519_public(seed: Seq<u8>) -> Seq<u8>;

/// The deterministic Ed25519 signature of `msg` under a secret seed.
pub uninterp spec fn spec_ed25519_sign(seed: Seq<u8>, msg: Seq<u8>) -> Seq<u8>;

/// Whether 32 bytes decompress to an Ed25519 verifying key.
pub uninterp spec fn spec_ed25519_key_valid(key: Seq<u8>) -> bool;

/// Whether `sig` is a valid Ed25519 signature of `msg` under `key`.
pub uninterp spec fn spec_ed25519_verify(key: Seq<u8>, msg: Seq<u8>, sig: Seq<u8>) -> bool;

/// `SigningKey::from_bytes(seed).verifying_key().to_bytes()` from `ed25519-dalek`.
#[verifier::external_body]
pub fn ed25519_public_key(seed: &[u8; 32]) -> (key: [u8; 32])
    ensures
        key@ == spec_ed25519_public(seed@),
{
    ed25519_dalek::SigningKey::from_bytes(seed).verifying_key().to_bytes()
}

/// `SigningKey::from_bytes(seed).sign(msg).to_bytes()` from `ed25519-dalek`;
/// Ed25519 signing is deterministic, so the signature is named.
#[verifier::external_body]
pub fn ed25519_sign(seed: &[u8; 32], msg: &[u8]) -> (sig: [u8; 64])
    ensures
        sig@ == spec_ed25519_sign(seed@, msg@),
{
    ed25519_dalek::SigningKey::from_bytes(seed).sign(msg).to_bytes()
}

/// `VerifyingKey::from_bytes(key).is_ok()` from `ed25519-dalek`: whether the
/// bytes decompress to a curve point. The key of any signing key does.
#[verifier::external_body]
pub fn ed25519_key_is_valid(key: &[u8; 32]) -> (valid: bool)
    ensures
        valid == spec_ed25519_key_valid(key@),
        forall|seed: Seq<u8>|
            #![trigger spec_ed25519_public(seed)]
            key@ == spec_ed25519_public(seed) ==> valid,
{
    ed25519_dalek::VerifyingKey::from_bytes(key).is_ok()
}

/// `VerifyingKey::from_bytes(key)` then `verify(msg, Signature::from_bytes(sig))`
/// from `ed25519-dalek`; an undecodable key verifies nothing. A signature made
/// with the matching signing key verifies (Ed25519 correctness).
#[verifier::external_body]
pub fn ed25519_verify(key: &[u8; 32], msg: &[u8], sig: &[u8; 64]) -> (ok: bool)
    ensures
        ok == spec_ed25519_verify(key@, msg@, sig@),
        forall|seed: Seq<u8>|
            #![trigger spec_ed25519_sign(seed, msg@)]
            key@ == spec_ed25519_public(seed) && sig@ == spec_ed25519_sign(seed, msg@) ==> ok,
{
    match ed25519_dalek::VerifyingKey::from_bytes(key) {
        Ok(vk) => vk.verify(msg, &ed25519_dalek::Signature::from_bytes(sig)).is_ok(),
        Err(_) => false,
    }
}

/// The English BIP39 phrase (words joined by single spaces) of some entropy.
pub uninterp spec fn spec_bip39_phrase(entropy: Seq<u8>) -> Seq<char>;

/// The entropy a BIP39 phrase encodes, or `None` if it is not a valid phrase.
pub uninterp spec fn spec_bip39_entropy(phrase: Seq<char>) -> Option<Seq<u8>>;

/// Whether text is `n` words of lowercase ASCII letters joined by single
/// spaces.
pub open spec fn spec_words_joined(s: Seq<char>, n: nat) -> bool {
    &&& n > 0
    &&& s.len() > 0
    &&& s[0] != ' '
    &&& s.last() != ' '
    &&& forall|i: int| 0 <= i < s.len() ==> (#[trigger] s[i] == ' ' || ('a' <= s[i] && s[i] <= 'z'))
    &&& forall|i: int| 0 <= i < s.len() - 1 ==> !(#[trigger] s[i] == ' ' && s[i + 1] == ' ')
    &&& s.filter(|c: char| c == ' ').len() == n - 1
}

/// `Mnemonic::from_entropy(entropy).to_string()` from `bip39`; 32 bytes is a
/// valid entropy length, so the call does not fail. The phrase is the 24
/// words (32 * 3 / 4) of the English list, which are lowercase letters,
/// joined by single spaces (`Display for Mnemonic`).
#[verifier::external_body]
pub fn bip39_phrase(entropy: &[u8; 32]) -> (phrase: String)
    ensures
        phrase@ == spec_bip39_phrase(entropy@),
        spec_words_joined(phrase@, 24),
{
    bip39::Mnemonic::from_entropy(entropy).expect("32 bytes is valid BIP39 entropy").to_string()
}

/// `Mnemonic::parse(phrase)` then `to_entropy()` from `bip39`. Parsing the
/// phrase of some 32-byte entropy gives that entropy back.
#[verifier::external_body]
pub fn bip39_entropy(phrase: &str) -> (entropy: Option<Vec<u8>>)
    ensures
        entropy is Some <==> spec_bip39_entropy(phrase@) is Some,
        entropy matches Some(e) ==> spec_bip39_entropy(phrase@) == Some(e@),
        forall|e: Seq<u8>|
            #![trigger spec_bip39_phrase(e)]
            e.len() == 32 && phrase@ == spec_bip39_phrase(e) ==> (entropy is Some && entropy.unwrap()@ == e),
{
    match bip39::Mnemonic::parse(phrase) {
        Ok(m) => Some(m.to_entropy()),
        Err(_) => None,
    }
}

/// The 32-byte Argon2id key (default parameters) of a password and salt.
pub uninterp spec fn spec_argon2id(password: Seq<u8>, salt: Seq<u8>) -> Seq<u8>;

/// `Argon2::default().hash_password_into(password, salt, 32 bytes)` from
/// `argon2`. With a 32-byte output it fails exactly when the salt is shorter
/// than 8 bytes or a length exceeds `u32::MAX` (`verify_inputs`).
#[verifier::external_body]
pub fn argon2id_key(password: &[u8], salt: &[u8]) -> (key: Option<[u8; 32]>)
    ensures
        key is Some <==> (password@.len() <= 0xFFFF_FFFF && 8 <= salt@.len() <= 0xFFFF_FFFF),
        key matches Some(k) ==> k@ == spec_argon2id(password@, salt@),
{
    let mut out = [0u8; 32];
    match argon2::Argon2::default().hash_password_into(password, salt, &mut out) {
        Ok(()) => Some(out),
        Err(_) => None,
    }
}

/// The zstd frame of `data` at compression `level`.
pub uninterp spec fn spec_zstd_compress(data: Seq<u8>, level: int) -> Seq<u8>;

/// The bytes a zstd frame decompresses to, if it is one.
pub uninterp spec fn spec_zstd_decompress(data: Seq<u8>) -> Option<Seq<u8>>;

/// `zstd::encode_all(data, level)`: the zstd frame of the data. Reading a
/// slice cannot fail and zstd clamps the level into its range, so the call
/// fails only when memory cannot be allocated, which, like any failed
/// allocation, is not a result this library models: the frame is returned.
#[verifier::external_body]
pub fn zstd_compress(data: &[u8], level: i32) -> (out: Option<Vec<u8>>)
    ensures
        out is Some,
        out matches Some(c) ==> c@ == spec_zstd_compress(data@, level as int),
{
    zstd::encode_all(data, level).ok()
}

/// `zstd::decode_all(data)`: the bytes the frames decompress to, and `None`
/// exactly when the data is not zstd (short of memory running out, which, as
/// for any failed allocation, is not a result modelled here). zstd is
/// lossless: a frame made by `encode_all` (at any `i32` level; zstd clamps
/// levels to its range) decompresses to the bytes it was made from.
#[verifier::external_body]
pub fn zstd_decompress(data: &[u8]) -> (out: Option<Vec<u8>>)
    ensures
        out is Some <==> spec_zstd_decompress(data@) is Some,
        out matches Some(d) ==> spec_zstd_decompress(data@) == Some(d@),
        forall|d: Seq<u8>, level: int|
            #![trigger spec_zstd_compress(d, level)]
            i32::MIN <= level <= i32::MAX && data@ == spec_zstd_compress(d, level) ==> (out is Some && out.unwrap()@
                == d),
{
    zstd::decode_all(data).ok()
}

/// `OsRng.fill_bytes` from `rand`: N bytes from the operating system's
/// CSPRNG. Nothing can be said of the value.
#[verifier::external_body]
pub fn random_bytes<const N: usize>() -> (bytes: [u8; N]) {
    let mut bytes = [0u8; N];
    rand::rngs::OsRng.fill_bytes(&mut bytes);
    bytes
}

/// `thread_rng().gen_range(lo..=hi)` from `rand`: some value in the range.
#[verifier::external_body]
pub fn random_in_range(lo: u64, hi: u64) -> (v: u64)
    requires
        lo <= hi,
    ensures
        lo <= v <= hi,
{
    rand::thread_rng().gen_range(lo..=hi)
}

/// `SliceRandom::shuffle` from `rand`: a permutation of the items.
#[verifier::external_body]
pub fn shuffle<T>(items: &mut Vec<T>)
    ensures
        final(items)@.to_multiset() == old(items)@.to_multiset(),
{
    items.shuffle(&mut rand::thread_rng());
}

} // verus!
