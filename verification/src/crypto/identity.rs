//! Identity keys: the seed they derive from, the Ed25519/X25519 key pair,
//! pre-keys and the key bundle published for X3DH.
//!
//! Secret keys are held as their 32 secret bytes (the Ed25519 seed, the
//! X25519 scalar bytes); public keys, signatures and Diffie-Hellman outputs
//! are computed by the outside crates behind the trusted items of
//! `crypto::primitives`.

use vstd::prelude::*;
use crate::common::byte_util::to_array;
use crate::common::error::{Result, crypto_error};
use crate::common::types::PeerId;
use crate::crypto::primitives::{
    spec_hkdf_sha256, hkdf_sha256, spec_ed25519_public, spec_ed25519_sign, spec_ed25519_verify,
    spec_ed25519_key_valid, ed25519_public_key, ed25519_sign, ed25519_verify, ed25519_key_is_valid,
    spec_x25519_public, x25519_public_key, spec_bip39_phrase, spec_bip39_entropy, bip39_phrase,
    bip39_entropy, random_bytes,
};

verus! {

/// HKDF info for the storage encryption key (`cypher-storage-key`).
pub const STORAGE_KEY_INFO: [u8; 18] = [99, 121, 112, 104, 101, 114, 45, 115, 116, 111, 114, 97, 103, 101, 45, 107, 101, 121];

/// HKDF info for the Ed25519 signing seed (`cypher-ed25519`).
pub const ED25519_INFO: [u8; 14] = [99, 121, 112, 104, 101, 114, 45, 101, 100, 50, 53, 53, 49, 57];

/// HKDF info for the X25519 static secret (`cypher-x25519`).
pub const X25519_INFO: [u8; 13] = [99, 121, 112, 104, 101, 114, 45, 120, 50, 53, 53, 49, 57];

/// HKDF-SHA256 without salt, 32 bytes of output.
pub open spec fn spec_hkdf32(ikm: Seq<u8>, info: Seq<u8>) -> Seq<u8> {
    spec_hkdf_sha256(None, ikm, info, 32)
}

/// A 256-bit seed from which all identity keys are deterministically derived.
pub struct IdentitySeed(pub [u8; 32]);

impl IdentitySeed {
    /// A new random 256-bit seed.
    pub fn generate() -> (s: Self) {
        IdentitySeed(random_bytes())
    }

    /// The seed as a 24-word BIP39 mnemonic.
    pub fn to_mnemonic(&self) -> (m: String)
        ensures
            m@ == spec_bip39_phrase(self.0@),
            crate::crypto::primitives::spec_words_joined(m@, 24),
    {
        bip39_phrase(&self.0)
    }

    /// The seed a BIP39 mnemonic encodes. A phrase that does not parse, or
    /// that encodes other than 32 bytes of entropy, is a crypto error. The
    /// mnemonic of a seed gives that seed back.
    pub fn from_mnemonic(phrase: &str) -> (r: Result<Self>)
        ensures
            r is Ok <==> (spec_bip39_entropy(phrase@) is Some
                && spec_bip39_entropy(phrase@).unwrap().len() == 32),
            r is Ok ==> Some(r->Ok_0.0@) == spec_bip39_entropy(phrase@),
            r is Err ==> r->Err_0 is Crypto,
            forall|e: Seq<u8>|
                #![trigger spec_bip39_phrase(e)]
                e.len() == 32 && phrase@ == spec_bip39_phrase(e) ==> (r is Ok && r->Ok_0.0@ == e),
    {
        match bip39_entropy(phrase) {
            None => Err(crypto_error("invalid mnemonic")),
            Some(entropy) => {
                if entropy.len() != 32 {
                    Err(crypto_error("expected 32-byte entropy"))
                } else {
                    Ok(IdentitySeed(to_array(entropy.as_slice())))
                }
            },
        }
    }

    /// The identity key pair this seed derives.
    pub fn derive_identity(&self) -> (kp: IdentityKeyPair)
        ensures
            kp.signing_key@ == spec_hkdf32(self.0@, ED25519_INFO@),
            kp.dh_secret@ == spec_hkdf32(self.0@, X25519_INFO@),
    {
        IdentityKeyPair::from_seed(self)
    }

    /// The storage encryption key for local data at rest.
    pub fn derive_storage_key(&self) -> (k: [u8; 32])
        ensures
            k@ == spec_hkdf32(self.0@, STORAGE_KEY_INFO@),
    {
        hkdf_sha256(None, self.0.as_slice(), STORAGE_KEY_INFO.as_slice())
    }

    /// The raw seed bytes.
    pub fn as_bytes(&self) -> (b: &[u8; 32])
        ensures
            b@ == self.0@,
    {
        &self.0
    }
}

/// An identity key pair: Ed25519 for signing (held as its 32-byte secret
/// seed) and a separate X25519 static secret for Diffie-Hellman.
pub struct IdentityKeyPair {
    pub signing_key: [u8; 32],
    pub dh_secret: [u8; 32],
}

impl IdentityKeyPair {
    /// A new random identity key pair (ephemeral, not persistent).
    pub fn generate() -> (kp: Self) {
        IdentityKeyPair { signing_key: random_bytes(), dh_secret: random_bytes() }
    }

    /// The key pair a seed derives: the Ed25519 seed and the X25519 secret
    /// are HKDF-SHA256 of the seed under distinct labels.
    pub fn from_seed(seed: &IdentitySeed) -> (kp: Self)
        ensures
            kp.signing_key@ == spec_hkdf32(seed.0@, ED25519_INFO@),
            kp.dh_secret@ == spec_hkdf32(seed.0@, X25519_INFO@),
    {
        let signing_key: [u8; 32] = hkdf_sha256(None, seed.0.as_slice(), ED25519_INFO.as_slice());
        let dh_secret: [u8; 32] = hkdf_sha256(None, seed.0.as_slice(), X25519_INFO.as_slice());
        IdentityKeyPair { signing_key, dh_secret }
    }

    /// The Ed25519 verifying key.
    pub fn verifying_key(&self) -> (vk: [u8; 32])
        ensures
            vk@ == spec_ed25519_public(self.signing_key@),
    {
        ed25519_public_key(&self.signing_key)
    }

    /// The X25519 public key.
    pub fn dh_public_key(&self) -> (pk: [u8; 32])
        ensures
            pk@ == spec_x25519_public(self.dh_secret@),
    {
        x25519_public_key(&self.dh_secret)
    }

    /// The peer id: the Ed25519 verifying key bytes.
    pub fn peer_id(&self) -> (p: PeerId)
        ensures
            p.0@ == spec_ed25519_public(self.signing_key@),
    {
        PeerId(self.verifying_key())
    }

    /// The Ed25519 signature of `data`.
    pub fn sign(&self, data: &[u8]) -> (sig: [u8; 64])
        ensures
            sig@ == spec_ed25519_sign(self.signing_key@, data@),
    {
        ed25519_sign(&self.signing_key, data)
    }

    /// Checks a signature against this pair's verifying key. What `sign`
    /// produced for the same data verifies.
    pub fn verify(&self, data: &[u8], signature: &[u8; 64]) -> (r: Result<()>)
        ensures
            r is Ok <==> spec_ed25519_verify(spec_ed25519_public(self.signing_key@), data@, signature@),
            r is Err ==> r->Err_0 is Crypto,
            signature@ == spec_ed25519_sign(self.signing_key@, data@) ==> r is Ok,
    {
        let vk = self.verifying_key();
        Self::verify_with_key(&vk, data, signature)
    }

    /// Checks a signature against a verifying key given as bytes; bytes that
    /// are no Ed25519 point verify nothing.
    pub fn verify_with_key(verifying_key: &[u8; 32], data: &[u8], signature: &[u8; 64]) -> (r: Result<()>)
        ensures
            r is Ok <==> spec_ed25519_verify(verifying_key@, data@, signature@),
            r is Err ==> r->Err_0 is Crypto,
            forall|seed: Seq<u8>|
                #![trigger spec_ed25519_sign(seed, data@)]
                verifying_key@ == spec_ed25519_public(seed) && signature@ == spec_ed25519_sign(seed, data@)
                    ==> r is Ok,
    {
        if ed25519_verify(verifying_key, data, signature) {
            Ok(())
        } else {
            Err(crypto_error("Signature verification failed"))
        }
    }
}

/// A signed pre-key: an X25519 static secret whose public key is signed by
/// the identity key.
pub struct SignedPreKey {
    pub secret: [u8; 32],
}

impl SignedPreKey {
    /// A new random signed pre-key.
    pub fn generate() -> (k: Self) {
        SignedPreKey { secret: random_bytes() }
    }

    pub fn public_key(&self) -> (pk: [u8; 32])
        ensures
            pk@ == spec_x25519_public(self.secret@),
    {
        x25519_public_key(&self.secret)
    }
}

/// An ephemeral X25519 key pair used for a single X3DH handshake.
pub struct EphemeralKeyPair {
    pub secret: [u8; 32],
}

impl EphemeralKeyPair {
    /// A new random ephemeral key pair.
    pub fn generate() -> (k: Self) {
        EphemeralKeyPair { secret: random_bytes() }
    }

    pub fn public_key(&self) -> (pk: [u8; 32])
        ensures
            pk@ == spec_x25519_public(self.secret@),
    {
        x25519_public_key(&self.secret)
    }
}

/// Wire size of a serialised key bundle: 32 + 32 + 32 + 64 bytes.
pub const KEY_BUNDLE_BYTES: usize = 160;

/// A key bundle published by a peer for X3DH key agreement.
#[derive(Clone, Debug)]
pub struct KeyBundle {
    /// Ed25519 verifying key.
    pub identity_key: [u8; 32],
    /// X25519 identity public key.
    pub identity_dh_key: [u8; 32],
    /// X25519 signed pre-key public key.
    pub signed_prekey: [u8; 32],
    /// Signature over the signed pre-key by the identity signing key.
    pub prekey_signature: [u8; 64],
}

impl KeyBundle {
    /// A bundle is well formed when its identity key is an Ed25519 point.
    pub open spec fn wf(&self) -> bool {
        spec_ed25519_key_valid(self.identity_key@)
    }

    /// The wire form: identity key, identity DH key, signed pre-key, signature.
    pub open spec fn spec_bytes(&self) -> Seq<u8> {
        self.identity_key@ + self.identity_dh_key@ + self.signed_prekey@ + self.prekey_signature@
    }

    /// The 160-byte wire form.
    pub fn to_bytes(&self) -> (out: [u8; 160])
        ensures
            out@ == self.spec_bytes(),
    {
        let mut v: Vec<u8> = Vec::new();
        v.extend_from_slice(self.identity_key.as_slice());
        v.extend_from_slice(self.identity_dh_key.as_slice());
        v.extend_from_slice(self.signed_prekey.as_slice());
        v.extend_from_slice(self.prekey_signature.as_slice());
        proof {
            assert(v@ =~= self.spec_bytes());
        }
        to_array(v.as_slice())
    }

    /// Reads a bundle from the first 160 bytes of `data`. Fewer bytes, or an
    /// identity key that is no Ed25519 point, is a crypto error. A well-formed
    /// bundle reads back from its wire form.
    pub fn from_bytes(data: &[u8]) -> (r: Result<Self>)
        ensures
            r is Ok <==> (data@.len() >= KEY_BUNDLE_BYTES && spec_ed25519_key_valid(data@.subrange(0, 32))),
            r is Ok ==> r->Ok_0.identity_key@ == data@.subrange(0, 32)
                && r->Ok_0.identity_dh_key@ == data@.subrange(32, 64)
                && r->Ok_0.signed_prekey@ == data@.subrange(64, 96)
                && r->Ok_0.prekey_signature@ == data@.subrange(96, 160)
                && r->Ok_0.wf(),
            r is Err ==> r->Err_0 is Crypto,
    {
        if data.len() < KEY_BUNDLE_BYTES {
            return Err(crypto_error("KeyBundle too short"));
        }
        let identity_key: [u8; 32] = to_array(vstd::slice::slice_subrange(data, 0, 32));
        let identity_dh_key: [u8; 32] = to_array(vstd::slice::slice_subrange(data, 32, 64));
        let signed_prekey: [u8; 32] = to_array(vstd::slice::slice_subrange(data, 64, 96));
        let prekey_signature: [u8; 64] = to_array(vstd::slice::slice_subrange(data, 96, 160));
        if !ed25519_key_is_valid(&identity_key) {
            return Err(crypto_error("invalid identity key"));
        }
        Ok(KeyBundle { identity_key, identity_dh_key, signed_prekey, prekey_signature })
    }

    /// The bundle of an identity and a signed pre-key: the pre-key's public
    /// key signed by the identity key.
    pub fn new(identity: &IdentityKeyPair, spk: &SignedPreKey) -> (b: Self)
        ensures
            b.identity_key@ == spec_ed25519_public(identity.signing_key@),
            b.identity_dh_key@ == spec_x25519_public(identity.dh_secret@),
            b.signed_prekey@ == spec_x25519_public(spk.secret@),
            b.prekey_signature@ == spec_ed25519_sign(identity.signing_key@, b.signed_prekey@),
            b.wf(),
    {
        let spk_pub = spk.public_key();
        let prekey_signature = identity.sign(spk_pub.as_slice());
        let identity_key = identity.verifying_key();
        // The verifying key of a signing key always decodes; the check
        // records that fact for the bundle's well-formedness.
        let valid = ed25519_key_is_valid(&identity_key);
        assert(valid);
        KeyBundle {
            identity_key,
            identity_dh_key: identity.dh_public_key(),
            signed_prekey: spk_pub,
            prekey_signature,
        }
    }

    /// Checks that the signed pre-key was signed by the identity key. A
    /// bundle made by `new` verifies.
    pub fn verify(&self) -> (r: Result<()>)
        ensures
            r is Ok <==> spec_ed25519_verify(self.identity_key@, self.signed_prekey@, self.prekey_signature@),
            r is Err ==> r->Err_0 is Crypto,
            forall|seed: Seq<u8>|
                #![trigger spec_ed25519_public(seed)]
                self.identity_key@ == spec_ed25519_public(seed)
                    && self.prekey_signature@ == spec_ed25519_sign(seed, self.signed_prekey@) ==> r is Ok,
    {
        IdentityKeyPair::verify_with_key(&self.identity_key, self.signed_prekey.as_slice(), &self.prekey_signature)
    }
}

/// A well-formed key bundle reads back from its wire form unchanged.
pub proof fn lemma_key_bundle_roundtrip(b: KeyBundle)
    requires
        b.wf(),
    ensures
        b.spec_bytes().len() == KEY_BUNDLE_BYTES,
        b.spec_bytes().subrange(0, 32) == b.identity_key@,
        b.spec_bytes().subrange(32, 64) == b.identity_dh_key@,
        b.spec_bytes().subrange(64, 96) == b.signed_prekey@,
        b.spec_bytes().subrange(96, 160) == b.prekey_signature@,
        spec_ed25519_key_valid(b.spec_bytes().subrange(0, 32)),
{
    assert(b.spec_bytes().subrange(0, 32) =~= b.identity_key@);
    assert(b.spec_bytes().subrange(32, 64) =~= b.identity_dh_key@);
    assert(b.spec_bytes().subrange(64, 96) =~= b.signed_prekey@);
    assert(b.spec_bytes().subrange(96, 160) =~= b.prekey_signature@);
}

} // verus!
