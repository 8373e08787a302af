//! At-rest encryption: AES-256-GCM under a random nonce, with zstd
//! compression of longer records before encryption.

use vstd::prelude::*;
use crate::common::byte_util::to_array;
use crate::common::error::{Result, crypto_error};
use crate::crypto::primitives::{
    aes256_gcm_encrypt, aes256_gcm_decrypt, spec_aes_gcm_seal, spec_aes_gcm_open, zstd_compress,
    zstd_decompress, spec_zstd_compress, spec_zstd_decompress, random_bytes, AES_GCM_P_MAX,
    AES_GCM_TAG_LEN,
};

verus! {

/// AES-256-GCM nonce length in bytes.
pub const NONCE_LEN: usize = 12;

/// Records of at most this many bytes are stored without compression.
pub const COMPRESSION_THRESHOLD: usize = 64;

/// zstd compression level.
pub const ZSTD_LEVEL: i32 = 3;

/// No associated data is used at rest.
pub open spec fn no_aad() -> Seq<u8> {
    Seq::empty()
}

/// The bytes that are encrypted for a record: compressed or not.
pub open spec fn spec_prepared(data: Seq<u8>, compressed: bool) -> Seq<u8> {
    if compressed { spec_zstd_compress(data, ZSTD_LEVEL as int) } else { data }
}

/// The stored ciphertext of a record.
pub open spec fn spec_sealed_record(key: Seq<u8>, nonce: Seq<u8>, data: Seq<u8>, compressed: bool) -> Seq<u8> {
    spec_aes_gcm_seal(key, nonce, spec_prepared(data, compressed), no_aad())
}

/// Encrypts `data` under `key` and a fresh random nonce, returned with the
/// ciphertext. It fails (a crypto error) only for data over 2^36 bytes.
pub fn encrypt(key: &[u8; 32], data: &[u8]) -> (r: Result<(Vec<u8>, [u8; 12])>)
    ensures
        r is Ok <==> data@.len() <= AES_GCM_P_MAX,
        r is Ok ==> r->Ok_0.0@ == spec_aes_gcm_seal(key@, r->Ok_0.1@, data@, no_aad())
            && r->Ok_0.0@.len() == data@.len() + AES_GCM_TAG_LEN,
        r is Err ==> r->Err_0 is Crypto,
{
    let nonce: [u8; 12] = random_bytes();
    let empty: [u8; 0] = [];
    assert(empty@ =~= no_aad());
    match aes256_gcm_encrypt(key, &nonce, data, empty.as_slice()) {
        Some(ct) => Ok((ct, nonce)),
        None => Err(crypto_error("encrypt")),
    }
}

/// Decrypts `ciphertext` under `key` and a 12-byte nonce. A ciphertext that
/// does not open is a crypto error; what `encrypt` sealed under the same key
/// and nonce opens to the data it was made from.
pub fn decrypt(key: &[u8; 32], ciphertext: &[u8], nonce_bytes: &[u8]) -> (r: Result<Vec<u8>>)
    requires
        nonce_bytes@.len() == NONCE_LEN,
    ensures
        r is Ok <==> spec_aes_gcm_open(key@, nonce_bytes@, ciphertext@, no_aad()) is Some,
        r is Ok ==> spec_aes_gcm_open(key@, nonce_bytes@, ciphertext@, no_aad()) == Some(r->Ok_0@),
        r is Err ==> r->Err_0 is Crypto,
        forall|p: Seq<u8>|
            #![trigger spec_aes_gcm_seal(key@, nonce_bytes@, p, no_aad())]
            ciphertext@ == spec_aes_gcm_seal(key@, nonce_bytes@, p, no_aad()) && p.len() <= AES_GCM_P_MAX
                ==> r is Ok && r->Ok_0@ == p,
{
    let nonce: [u8; 12] = to_array(nonce_bytes);
    let empty: [u8; 0] = [];
    assert(empty@ =~= no_aad());
    match aes256_gcm_decrypt(key, &nonce, ciphertext, empty.as_slice()) {
        Some(p) => Ok(p),
        None => Err(crypto_error("decrypt")),
    }
}

/// Compresses data longer than the threshold with zstd. Returns the data to
/// store and whether it was compressed; short data is returned unchanged.
pub fn maybe_compress(data: &[u8]) -> (r: Result<(Vec<u8>, bool)>)
    ensures
        r is Ok,
        data@.len() <= COMPRESSION_THRESHOLD ==> r->Ok_0.0@ == data@ && !r->Ok_0.1,
        data@.len() > COMPRESSION_THRESHOLD ==> r->Ok_0.1
            && r->Ok_0.0@ == spec_zstd_compress(data@, ZSTD_LEVEL as int),
        r->Ok_0.0@ == spec_prepared(data@, r->Ok_0.1),
{
    if data.len() > COMPRESSION_THRESHOLD {
        match zstd_compress(data, ZSTD_LEVEL) {
            Some(c) => Ok((c, true)),
            None => Err(crypto_error("zstd compress")),
        }
    } else {
        Ok((vstd::slice::slice_to_vec(data), false))
    }
}

/// Decompresses data when `compressed` is set; otherwise returns it as is.
/// A zstd frame made by `maybe_compress` decompresses to the data it was made from.
pub fn maybe_decompress(data: Vec<u8>, compressed: bool) -> (r: Result<Vec<u8>>)
    ensures
        !compressed ==> r is Ok && r->Ok_0@ == data@,
        compressed ==> (r is Ok <==> spec_zstd_decompress(data@) is Some),
        compressed && r is Ok ==> spec_zstd_decompress(data@) == Some(r->Ok_0@),
        forall|d: Seq<u8>|
            #![trigger spec_prepared(d, compressed)]
            data@ == spec_prepared(d, compressed) ==> r is Ok && r->Ok_0@ == d,
        r is Err ==> r->Err_0 is Crypto,
{
    if compressed {
        match zstd_decompress(data.as_slice()) {
            Some(d) => Ok(d),
            None => Err(crypto_error("zstd decompress")),
        }
    } else {
        Ok(data)
    }
}

/// Compresses (when longer than the threshold), then encrypts. Returns the
/// ciphertext, the nonce and whether the data was compressed. It fails (a
/// crypto error) only when the bytes to encrypt exceed the AES-GCM limit.
pub fn compress_and_encrypt(key: &[u8; 32], data: &[u8]) -> (r: Result<(Vec<u8>, [u8; 12], bool)>)
    ensures
        r is Ok <==> spec_prepared(data@, data@.len() > COMPRESSION_THRESHOLD).len() <= AES_GCM_P_MAX,
        r is Ok ==> r->Ok_0.0@ == spec_sealed_record(key@, r->Ok_0.1@, data@, r->Ok_0.2)
            && (r->Ok_0.2 <==> data@.len() > COMPRESSION_THRESHOLD)
            && spec_prepared(data@, r->Ok_0.2).len() <= AES_GCM_P_MAX
            && r->Ok_0.0@.len() == spec_prepared(data@, r->Ok_0.2).len() + AES_GCM_TAG_LEN,
        data@.len() <= COMPRESSION_THRESHOLD ==> r is Ok && r->Ok_0.0@.len() == data@.len() + AES_GCM_TAG_LEN,
        r is Err ==> r->Err_0 is Crypto,
{
    let (prepared, compressed) = maybe_compress(data)?;
    let (ct, nonce) = encrypt(key, prepared.as_slice())?;
    Ok((ct, nonce, compressed))
}

/// Decrypts, then decompresses when `compressed` is set. A record made by
/// `compress_and_encrypt` under the same key comes back unchanged.
pub fn decrypt_and_decompress(key: &[u8; 32], ciphertext: &[u8], nonce: &[u8], compressed: bool) -> (r: Result<Vec<u8>>)
    requires
        nonce@.len() == NONCE_LEN,
    ensures
        spec_aes_gcm_open(key@, nonce@, ciphertext@, no_aad()) is None ==> r is Err,
        r is Ok <==> (spec_aes_gcm_open(key@, nonce@, ciphertext@, no_aad()) is Some && (compressed
            ==> spec_zstd_decompress(spec_aes_gcm_open(key@, nonce@, ciphertext@, no_aad()).unwrap()) is Some)),
        r is Ok ==> spec_aes_gcm_open(key@, nonce@, ciphertext@, no_aad()) is Some && (!compressed
            ==> spec_aes_gcm_open(key@, nonce@, ciphertext@, no_aad()) == Some(r->Ok_0@)) && (compressed
            ==> spec_zstd_decompress(spec_aes_gcm_open(key@, nonce@, ciphertext@, no_aad()).unwrap()) == Some(
            r->Ok_0@,
        )),
        r is Err ==> r->Err_0 is Crypto,
        forall|d: Seq<u8>|
            #![trigger spec_sealed_record(key@, nonce@, d, compressed)]
            ciphertext@ == spec_sealed_record(key@, nonce@, d, compressed) && spec_prepared(d, compressed).len()
                <= AES_GCM_P_MAX ==> r is Ok && r->Ok_0@ == d,
{
    let decrypted = decrypt(key, ciphertext, nonce)?;
    maybe_decompress(decrypted, compressed)
}

} // verus!
