//! The identity file: the seed and nickname, encrypted under a key derived
//! from a passphrase with Argon2id.
//!
//! File format: `[salt: 16][nonce: 12][AES-256-GCM(seed(32) || nickname_len(4 LE) || nickname)]`.
//! The library builds and reads the file's bytes; reading and writing the
//! file itself is left to the caller, at `IdentityStore::path`.

use vstd::prelude::*;
use vstd::bytes::{spec_u32_to_le_bytes, spec_u32_from_le_bytes, u32_to_le_bytes, u32_from_le_bytes, lemma_auto_spec_u32_to_from_le_bytes};
use vstd::string::StringSliceAdditionalSpecFns;
use vstd::utf8::{encode_utf8, decode_utf8, valid_utf8};
use crate::common::byte_util::to_array;
use crate::common::error::{Result, crypto_error};
use crate::common::text::{string_from_utf8, string_push, string_push_str};
use crate::crypto::identity::IdentitySeed;
use crate::crypto::primitives::{
    argon2id_key, spec_argon2id, random_bytes, spec_aes_gcm_seal, spec_aes_gcm_open, spec_bip39_phrase,
    AES_GCM_P_MAX,
};
use crate::client::persistence::encryption::{encrypt, decrypt, no_aad, NONCE_LEN};

verus! {

/// Length of the Argon2id salt.
pub const SALT_LEN: usize = 16;

/// Length of the identity seed.
pub const SEED_LEN: usize = 32;

/// Name of the identity file in the data directory.
pub const IDENTITY_FILE: &'static str = "identity.enc";

/// The encrypted part: seed, nickname length (4 bytes LE), nickname.
pub open spec fn spec_identity_plaintext(seed: Seq<u8>, nickname: Seq<char>) -> Seq<u8> {
    seed + spec_u32_to_le_bytes(encode_utf8(nickname).len() as u32) + encode_utf8(nickname)
}

/// The whole identity file.
pub open spec fn spec_identity_file(passphrase: Seq<char>, salt: Seq<u8>, nonce: Seq<u8>, seed: Seq<u8>, nickname: Seq<char>) -> Seq<u8> {
    salt + nonce + spec_aes_gcm_seal(
        spec_argon2id(encode_utf8(passphrase), salt),
        nonce,
        spec_identity_plaintext(seed, nickname),
        no_aad(),
    )
}

/// `data` is an identity file of the seed and nickname under the
/// passphrase, with some 16-byte salt and 12-byte nonce.
pub open spec fn spec_is_identity_file(data: Seq<u8>, passphrase: Seq<char>, seed: Seq<u8>, nickname: Seq<char>) -> bool {
    exists|salt: Seq<u8>, nonce: Seq<u8>|
        salt.len() == SALT_LEN && nonce.len() == NONCE_LEN && data == spec_identity_file(passphrase, salt, nonce, seed, nickname)
}

/// What `parse_plaintext` reads: seed and nickname, if well formed.
pub open spec fn spec_parse_plaintext(data: Seq<u8>) -> Option<(Seq<u8>, Seq<char>)> {
    if data.len() < SEED_LEN + 4 {
        None
    } else {
        let nick_len = spec_u32_from_le_bytes(data.subrange(32, 36)) as int;
        if data.len() < 36 + nick_len {
            None
        } else if !valid_utf8(data.subrange(36, 36 + nick_len)) {
            None
        } else {
            Some((data.subrange(0, 32), decode_utf8(data.subrange(36, 36 + nick_len))))
        }
    }
}

/// When an identity file is sure to open: a file of the seed and nickname
/// under the passphrase, within the length limits of the file format,
/// Argon2id and AES-GCM.
pub open spec fn spec_identity_law_premise(data: Seq<u8>, passphrase: Seq<char>, seed: Seq<u8>, nickname: Seq<char>) -> bool {
    &&& spec_is_identity_file(data, passphrase, seed, nickname)
    &&& seed.len() == SEED_LEN
    &&& encode_utf8(nickname).len() <= u32::MAX
    &&& encode_utf8(passphrase).len() <= u32::MAX
    &&& 36 + encode_utf8(nickname).len() <= AES_GCM_P_MAX
    &&& data.len() >= SALT_LEN + NONCE_LEN + SEED_LEN + 4
}

/// The path of the identity file under a data directory, joined as a path
/// component is joined on Unix.
pub open spec fn spec_identity_path(data_dir: Seq<char>) -> Seq<char> {
    if data_dir.len() == 0 {
        IDENTITY_FILE@
    } else if data_dir.last() == '/' {
        data_dir + IDENTITY_FILE@
    } else {
        data_dir + seq!['/'] + IDENTITY_FILE@
    }
}

/// Where the encrypted identity seed lives.
pub struct IdentityStore {
    pub path: String,
}

/// Whether an identity file opens under a passphrase: long enough for the
/// header, a passphrase Argon2id accepts, a ciphertext that decrypts under
/// the derived key, and a plaintext that parses.
pub open spec fn spec_file_opens(data: Seq<u8>, passphrase: Seq<char>) -> bool {
    let key = spec_argon2id(encode_utf8(passphrase), data.subrange(0, 16));
    let opened = spec_aes_gcm_open(key, data.subrange(16, 28), data.subrange(28, data.len() as int), no_aad());
    &&& data.len() >= SALT_LEN + NONCE_LEN + SEED_LEN + 4
    &&& encode_utf8(passphrase).len() <= 0xFFFF_FFFF
    &&& opened is Some
    &&& spec_parse_plaintext(opened.unwrap()) is Some
}

impl IdentityStore {
    /// The store of a data directory: the identity file inside it.
    pub fn new(data_dir: &str) -> (s: Self)
        ensures
            s.path@ == spec_identity_path(data_dir@),
    {
        let mut path = String::new();
        string_push_str(&mut path, data_dir);
        if !data_dir.is_empty() && !ends_with_slash(data_dir) {
            string_push(&mut path, '/');
        }
        string_push_str(&mut path, IDENTITY_FILE);
        IdentityStore { path }
    }

    /// A new random seed and the identity file that stores it under the
    /// passphrase: a fresh salt and nonce. The salt is 16 bytes, so only
    /// inputs over the Argon2id and AES-GCM limits fail (crypto errors).
    pub fn create(&self, nickname: &str, passphrase: &str) -> (r: Result<(IdentitySeed, Vec<u8>)>)
        ensures
            r is Ok <==> (encode_utf8(passphrase@).len() <= 0xFFFF_FFFF && 36 + encode_utf8(nickname@).len() <= AES_GCM_P_MAX),
            r is Ok ==> spec_is_identity_file(r->Ok_0.1@, passphrase@, r->Ok_0.0.0@, nickname@),
            r is Ok ==> r->Ok_0.1@.len() == SALT_LEN + NONCE_LEN + SEED_LEN + 4 + encode_utf8(nickname@).len() + 16,
            r is Err ==> r->Err_0 is Crypto,
    {
        let seed = IdentitySeed::generate();
        match encrypt_identity(&seed, nickname, passphrase) {
            Ok(file) => Ok((seed, file)),
            Err(e) => Err(e),
        }
    }

    /// The seed and nickname of an identity file. A file too short to hold a
    /// seed, a wrong passphrase or a corrupted file are crypto errors. The
    /// file `create` or `import_mnemonic` made opens, under its passphrase,
    /// to its seed and nickname.
    pub fn unlock(&self, data: &[u8], passphrase: &str) -> (r: Result<(IdentitySeed, String)>)
        ensures
            r is Ok <==> spec_file_opens(data@, passphrase@),
            data@.len() < SALT_LEN + NONCE_LEN + SEED_LEN + 4 ==> r is Err,
            r is Ok ==> ({
                let key = spec_argon2id(encode_utf8(passphrase@), data@.subrange(0, 16));
                let opened = spec_aes_gcm_open(key, data@.subrange(16, 28), data@.subrange(28, data@.len() as int), no_aad());
                &&& opened is Some
                &&& spec_parse_plaintext(opened.unwrap()) == Some((r->Ok_0.0.0@, r->Ok_0.1@))
            }),
            r is Err ==> r->Err_0 is Crypto,
            forall|seed: Seq<u8>, nickname: Seq<char>|
                #![trigger spec_is_identity_file(data@, passphrase@, seed, nickname)]
                spec_identity_law_premise(data@, passphrase@, seed, nickname) ==> r is Ok && r->Ok_0.0.0@ == seed
                    && r->Ok_0.1@ == nickname,
    {
        proof {
            assert forall|seed: Seq<u8>, nickname: Seq<char>|
                #[trigger] spec_is_identity_file(data@, passphrase@, seed, nickname) && seed.len() == SEED_LEN
                    && encode_utf8(nickname).len() <= u32::MAX implies data@.subrange(28, data@.len() as int)
                == spec_aes_gcm_seal(
                spec_argon2id(encode_utf8(passphrase@), data@.subrange(0, 16)),
                data@.subrange(16, 28),
                spec_identity_plaintext(seed, nickname),
                no_aad(),
            ) && spec_parse_plaintext(spec_identity_plaintext(seed, nickname)) == Some((seed, nickname))
                && spec_identity_plaintext(seed, nickname).len() == 36 + encode_utf8(nickname).len() by {
                let (salt, nonce) = choose|salt: Seq<u8>, nonce: Seq<u8>|
                    salt.len() == SALT_LEN && nonce.len() == NONCE_LEN && data@ == spec_identity_file(
                        passphrase@,
                        salt,
                        nonce,
                        seed,
                        nickname,
                    );
                lemma_identity_file_layout(passphrase@, salt, nonce, seed, nickname);
            }
        }
        if data.len() < SALT_LEN + NONCE_LEN + SEED_LEN + 4 {
            return Err(crypto_error("identity file too short"));
        }
        let salt = vstd::slice::slice_subrange(data, 0, SALT_LEN);
        let nonce = vstd::slice::slice_subrange(data, SALT_LEN, SALT_LEN + NONCE_LEN);
        let ciphertext = vstd::slice::slice_subrange(data, SALT_LEN + NONCE_LEN, data.len());
        let key = derive_key(passphrase, salt)?;
        let plaintext = match decrypt(&key, ciphertext, nonce) {
            Ok(p) => p,
            Err(_) => {
                return Err(crypto_error("wrong passphrase or corrupted identity file"));
            },
        };
        parse_plaintext(plaintext.as_slice())
    }

    /// The seed of an identity file as a BIP39 mnemonic. The file must open
    /// under the passphrase, as for `unlock`; otherwise it is a crypto error.
    pub fn export_mnemonic(&self, data: &[u8], passphrase: &str) -> (r: Result<String>)
        ensures
            r is Ok <==> spec_file_opens(data@, passphrase@),
            data@.len() < SALT_LEN + NONCE_LEN + SEED_LEN + 4 ==> r is Err,
            r is Ok ==> ({
                let key = spec_argon2id(encode_utf8(passphrase@), data@.subrange(0, 16));
                let opened = spec_aes_gcm_open(key, data@.subrange(16, 28), data@.subrange(28, data@.len() as int), no_aad());
                &&& opened is Some
                &&& spec_parse_plaintext(opened.unwrap()) is Some
                &&& r->Ok_0@ == spec_bip39_phrase(spec_parse_plaintext(opened.unwrap()).unwrap().0)
            }),
            r is Ok ==> exists|seed: Seq<u8>| r->Ok_0@ == spec_bip39_phrase(seed) && seed.len() == SEED_LEN,
            r is Ok ==> crate::crypto::primitives::spec_words_joined(r->Ok_0@, 24),
            r is Err ==> r->Err_0 is Crypto,
            forall|seed: Seq<u8>, nickname: Seq<char>|
                #![trigger spec_is_identity_file(data@, passphrase@, seed, nickname)]
                spec_identity_law_premise(data@, passphrase@, seed, nickname) ==> r is Ok && r->Ok_0@
                    == spec_bip39_phrase(seed),
    {
        let (seed, _) = self.unlock(data, passphrase)?;
        Ok(seed.to_mnemonic())
    }

    /// The seed a BIP39 mnemonic encodes, and the identity file that stores
    /// it under the passphrase. The exported mnemonic of a seed imports as
    /// that seed.
    pub fn import_mnemonic(&self, mnemonic: &str, nickname: &str, passphrase: &str) -> (r: Result<(IdentitySeed, Vec<u8>)>)
        ensures
            r is Ok <==> (crate::crypto::primitives::spec_bip39_entropy(mnemonic@) is Some
                && crate::crypto::primitives::spec_bip39_entropy(mnemonic@).unwrap().len() == 32 && (encode_utf8(passphrase@).len() <= 0xFFFF_FFFF && 36 + encode_utf8(nickname@).len() <= AES_GCM_P_MAX)),
            r is Ok ==> Some(r->Ok_0.0.0@) == crate::crypto::primitives::spec_bip39_entropy(mnemonic@)
                && spec_is_identity_file(r->Ok_0.1@, passphrase@, r->Ok_0.0.0@, nickname@),
            r is Ok ==> r->Ok_0.1@.len() == SALT_LEN + NONCE_LEN + SEED_LEN + 4 + encode_utf8(nickname@).len() + 16,
            r is Err ==> r->Err_0 is Crypto,
            forall|seed: Seq<u8>|
                #![trigger crate::crypto::primitives::spec_bip39_phrase(seed)]
                seed.len() == 32 && mnemonic@ == crate::crypto::primitives::spec_bip39_phrase(seed) && encode_utf8(
                    passphrase@,
                ).len() <= 0xFFFF_FFFF && 36 + encode_utf8(nickname@).len() <= AES_GCM_P_MAX ==> r is Ok
                    && r->Ok_0.0.0@ == seed,
    {
        let seed = IdentitySeed::from_mnemonic(mnemonic)?;
        match encrypt_identity(&seed, nickname, passphrase) {
            Ok(file) => Ok((seed, file)),
            Err(e) => Err(e),
        }
    }
}

fn ends_with_slash(s: &str) -> (r: bool)
    requires
        s@.len() > 0,
    ensures
        r == (s@.last() == '/'),
{
    let mut last: char = ' ';
    for c in it: s.chars()
        invariant
            it.seq() == s@,
            it.index() > 0 ==> last == s@[it.index() - 1],
    {
        last = c;
    }
    last == '/'
}

/// The identity file for a seed: random salt and nonce, Argon2id key,
/// AES-256-GCM of the plaintext.
fn encrypt_identity(seed: &IdentitySeed, nickname: &str, passphrase: &str) -> (r: Result<Vec<u8>>)
    ensures
        r is Ok <==> (encode_utf8(passphrase@).len() <= 0xFFFF_FFFF && 36 + encode_utf8(nickname@).len() <= AES_GCM_P_MAX),
        r is Ok ==> spec_is_identity_file(r->Ok_0@, passphrase@, seed.0@, nickname@),
        r is Ok ==> r->Ok_0@.len() == SALT_LEN + NONCE_LEN + SEED_LEN + 4 + encode_utf8(nickname@).len() + 16,
        r is Err ==> r->Err_0 is Crypto,
{
    let salt: [u8; 16] = random_bytes();
    let plaintext = build_plaintext(seed, nickname);
    let key = derive_key(passphrase, salt.as_slice())?;
    let (ciphertext, nonce) = encrypt(&key, plaintext.as_slice())?;
    let mut output: Vec<u8> = Vec::new();
    output.extend_from_slice(salt.as_slice());
    output.extend_from_slice(nonce.as_slice());
    output.extend_from_slice(ciphertext.as_slice());
    proof {
        assert(output@ =~= spec_identity_file(passphrase@, salt@, nonce@, seed.0@, nickname@));
    }
    Ok(output)
}

/// The plaintext blob: `seed(32) || nickname_len(4 LE) || nickname`.
pub fn build_plaintext(seed: &IdentitySeed, nickname: &str) -> (v: Vec<u8>)
    ensures
        v@ == spec_identity_plaintext(seed.0@, nickname@),
        v@.len() == SEED_LEN + 4 + encode_utf8(nickname@).len(),
{
    proof {
        lemma_auto_spec_u32_to_from_le_bytes();
    }
    let nick = nickname.as_bytes();
    let mut buf: Vec<u8> = Vec::new();
    buf.extend_from_slice(seed.as_bytes().as_slice());
    let len_le = u32_to_le_bytes(nick.len() as u32);
    buf.extend_from_slice(len_le.as_slice());
    buf.extend_from_slice(nick);
    proof {
        assert(buf@ =~= spec_identity_plaintext(seed.0@, nickname@));
    }
    buf
}

/// Reads the decrypted plaintext back into seed and nickname. Too short a
/// blob, a nickname length past its end or a nickname that is not UTF-8 are
/// crypto errors.
pub fn parse_plaintext(data: &[u8]) -> (r: Result<(IdentitySeed, String)>)
    ensures
        r is Ok <==> spec_parse_plaintext(data@) is Some,
        r is Ok ==> spec_parse_plaintext(data@) == Some((r->Ok_0.0.0@, r->Ok_0.1@)),
        r is Err ==> r->Err_0 is Crypto,
{
    if data.len() < SEED_LEN + 4 {
        return Err(crypto_error("decrypted data too short"));
    }
    let seed_bytes: [u8; 32] = to_array(vstd::slice::slice_subrange(data, 0, SEED_LEN));
    let nick_len = u32_from_le_bytes(vstd::slice::slice_subrange(data, SEED_LEN, SEED_LEN + 4)) as usize;
    if data.len() - (SEED_LEN + 4) < nick_len {
        return Err(crypto_error("nickname data truncated"));
    }
    let nick_bytes = vstd::slice::slice_to_vec(vstd::slice::slice_subrange(data, SEED_LEN + 4, SEED_LEN + 4 + nick_len));
    match string_from_utf8(nick_bytes) {
        Some(nickname) => Ok((IdentitySeed(seed_bytes), nickname)),
        None => Err(crypto_error("invalid nickname utf-8")),
    }
}

/// The 32-byte key of a passphrase and salt, by Argon2id.
fn derive_key(passphrase: &str, salt: &[u8]) -> (r: Result<[u8; 32]>)
    ensures
        r is Ok <==> (encode_utf8(passphrase@).len() <= 0xFFFF_FFFF && 8 <= salt@.len() <= 0xFFFF_FFFF),
        r is Ok ==> r->Ok_0@ == spec_argon2id(encode_utf8(passphrase@), salt@),
        r is Err ==> r->Err_0 is Crypto,
{
    match argon2id_key(passphrase.as_bytes(), salt) {
        Some(k) => Ok(k),
        None => Err(crypto_error("Argon2id")),
    }
}

/// The layout of an identity file, and that its plaintext parses back.
pub proof fn lemma_identity_file_layout(passphrase: Seq<char>, salt: Seq<u8>, nonce: Seq<u8>, seed: Seq<u8>, nickname: Seq<char>)
    requires
        salt.len() == SALT_LEN,
        nonce.len() == NONCE_LEN,
        seed.len() == SEED_LEN,
        encode_utf8(nickname).len() <= u32::MAX,
    ensures
        ({
            let f = spec_identity_file(passphrase, salt, nonce, seed, nickname);
            &&& f.subrange(0, 16) == salt
            &&& f.subrange(16, 28) == nonce
            &&& f.subrange(28, f.len() as int) == spec_aes_gcm_seal(
                spec_argon2id(encode_utf8(passphrase), salt),
                nonce,
                spec_identity_plaintext(seed, nickname),
                no_aad(),
            )
            &&& spec_parse_plaintext(spec_identity_plaintext(seed, nickname)) == Some((seed, nickname))
            &&& spec_identity_plaintext(seed, nickname).len() == 36 + encode_utf8(nickname).len()
        }),
{
    broadcast use vstd::utf8::encode_utf8_valid_utf8, vstd::utf8::encode_utf8_decode_utf8;

    lemma_auto_spec_u32_to_from_le_bytes();
    let f = spec_identity_file(passphrase, salt, nonce, seed, nickname);
    let ct = spec_aes_gcm_seal(spec_argon2id(encode_utf8(passphrase), salt), nonce, spec_identity_plaintext(seed, nickname), no_aad());
    assert(f.subrange(0, 16) =~= salt);
    assert(f.subrange(16, 28) =~= nonce);
    assert(f.subrange(28, f.len() as int) =~= ct);
    let p = spec_identity_plaintext(seed, nickname);
    let nb = encode_utf8(nickname);
    assert(p.subrange(0, 32) =~= seed);
    assert(p.subrange(32, 36) =~= spec_u32_to_le_bytes(nb.len() as u32));
    assert(p.subrange(36, 36 + nb.len() as int) =~= nb);
}

} // verus!
