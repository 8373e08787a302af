//! X3DH key agreement: the initiator and responder halves, and the
//! symmetric variant both peers run with each other's public keys.

use vstd::prelude::*;
use crate::common::byte_util::{bytes_le, lex_le, lemma_lex_le_total_order};
use crate::crypto::identity::{EphemeralKeyPair, IdentityKeyPair, SignedPreKey};
use crate::crypto::primitives::{spec_hkdf_sha256, hkdf_sha256, spec_x25519_dh, spec_x25519_public, x25519_diffie_hellman};

verus! {

/// HKDF salt of the X3DH key derivation (`x3dh-salt`).
pub const X3DH_SALT: [u8; 9] = [120, 51, 100, 104, 45, 115, 97, 108, 116];

/// HKDF info of the X3DH key derivation (`x3dh-shared-secret`).
pub const X3DH_INFO: [u8; 18] = [120, 51, 100, 104, 45, 115, 104, 97, 114, 101, 100, 45, 115, 101, 99, 114, 101, 116];

/// A 32-byte shared secret derived from X3DH.
#[derive(Clone)]
pub struct SharedSecret(pub [u8; 32]);

impl SharedSecret {
    pub fn as_bytes(&self) -> (b: &[u8; 32])
        ensures
            b@ == self.0@,
    {
        &self.0
    }
}

/// The secret derived from concatenated Diffie-Hellman outputs.
pub open spec fn spec_x3dh_kdf(dh_concat: Seq<u8>) -> Seq<u8> {
    spec_hkdf_sha256(Some(X3DH_SALT@), dh_concat, X3DH_INFO@, 32)
}

/// Initiator: `KDF(DH(IK_A, SPK_B) || DH(EK_A, IK_B) || DH(EK_A, SPK_B))`.
pub open spec fn spec_x3dh_initiator(ik: Seq<u8>, ek: Seq<u8>, their_ik_dh: Seq<u8>, their_spk: Seq<u8>) -> Seq<u8> {
    spec_x3dh_kdf(spec_x25519_dh(ik, their_spk) + spec_x25519_dh(ek, their_ik_dh) + spec_x25519_dh(ek, their_spk))
}

/// Responder: `KDF(DH(SPK_B, IK_A) || DH(IK_B, EK_A) || DH(SPK_B, EK_A))`.
pub open spec fn spec_x3dh_responder(ik: Seq<u8>, spk: Seq<u8>, their_ik_dh: Seq<u8>, their_ek: Seq<u8>) -> Seq<u8> {
    spec_x3dh_kdf(spec_x25519_dh(spk, their_ik_dh) + spec_x25519_dh(ik, their_ek) + spec_x25519_dh(spk, their_ek))
}

/// Two equal-length outputs concatenated smaller first.
pub open spec fn spec_sorted_concat(x: Seq<u8>, y: Seq<u8>) -> Seq<u8> {
    if lex_le(x, y) { x + y } else { y + x }
}

/// Mutual: `KDF(DH(IK, IK') || sort(DH(IK, SPK'), DH(SPK, IK')))`.
pub open spec fn spec_x3dh_mutual(ik: Seq<u8>, spk: Seq<u8>, their_ik_dh: Seq<u8>, their_spk: Seq<u8>) -> Seq<u8> {
    spec_x3dh_kdf(
        spec_x25519_dh(ik, their_ik_dh) + spec_sorted_concat(
            spec_x25519_dh(ik, their_spk),
            spec_x25519_dh(spk, their_ik_dh),
        ),
    )
}

/// Sorting two outputs of one length does not depend on their order.
pub proof fn lemma_sorted_concat_symmetric(x: Seq<u8>, y: Seq<u8>)
    requires
        x.len() == y.len(),
    ensures
        spec_sorted_concat(x, y) == spec_sorted_concat(y, x),
{
    lemma_lex_le_total_order(x, y);
}

fn kdf(dh_concat: &[u8]) -> (s: SharedSecret)
    ensures
        s.0@ == spec_x3dh_kdf(dh_concat@),
{
    SharedSecret(hkdf_sha256(Some(X3DH_SALT.as_slice()), dh_concat, X3DH_INFO.as_slice()))
}

fn concat3(a: &[u8; 32], b: &[u8; 32], c: &[u8; 32]) -> (v: Vec<u8>)
    ensures
        v@ == a@ + b@ + c@,
{
    let mut v: Vec<u8> = Vec::new();
    v.extend_from_slice(a.as_slice());
    v.extend_from_slice(b.as_slice());
    v.extend_from_slice(c.as_slice());
    proof {
        assert(v@ =~= a@ + b@ + c@);
    }
    v
}

/// X3DH initiator (Alice) side. When the peer's keys are the public keys of
/// its identity and signed pre-key, the result is what the peer's responder
/// side computes with Alice's public keys.
pub fn x3dh_initiator(
    our_ik: &IdentityKeyPair,
    our_ek: &EphemeralKeyPair,
    their_ik_dh: &[u8; 32],
    their_spk: &[u8; 32],
) -> (s: SharedSecret)
    ensures
        s.0@ == spec_x3dh_initiator(our_ik.dh_secret@, our_ek.secret@, their_ik_dh@, their_spk@),
        forall|bob_ik: Seq<u8>, bob_spk: Seq<u8>|
            #![trigger spec_x25519_public(bob_ik), spec_x25519_public(bob_spk)]
            their_ik_dh@ == spec_x25519_public(bob_ik) && their_spk@ == spec_x25519_public(bob_spk)
                ==> s.0@ == spec_x3dh_responder(
                bob_ik,
                bob_spk,
                spec_x25519_public(our_ik.dh_secret@),
                spec_x25519_public(our_ek.secret@),
            ),
{
    let dh1 = x25519_diffie_hellman(&our_ik.dh_secret, their_spk);
    let dh2 = x25519_diffie_hellman(&our_ek.secret, their_ik_dh);
    let dh3 = x25519_diffie_hellman(&our_ek.secret, their_spk);
    let concat = concat3(&dh1, &dh2, &dh3);
    kdf(concat.as_slice())
}

/// X3DH responder (Bob) side.
pub fn x3dh_responder(
    our_ik: &IdentityKeyPair,
    our_spk: &SignedPreKey,
    their_ik_dh: &[u8; 32],
    their_ek: &[u8; 32],
) -> (s: SharedSecret)
    ensures
        s.0@ == spec_x3dh_responder(our_ik.dh_secret@, our_spk.secret@, their_ik_dh@, their_ek@),
{
    let dh1 = x25519_diffie_hellman(&our_spk.secret, their_ik_dh);
    let dh2 = x25519_diffie_hellman(&our_ik.dh_secret, their_ek);
    let dh3 = x25519_diffie_hellman(&our_spk.secret, their_ek);
    let concat = concat3(&dh1, &dh2, &dh3);
    kdf(concat.as_slice())
}

/// Symmetric key agreement: both peers call this with each other's public
/// keys and obtain the same secret, because the two cross terms are sorted
/// before concatenation.
pub fn x3dh_mutual(
    our_ik: &IdentityKeyPair,
    our_spk_secret: &[u8; 32],
    their_ik_dh: &[u8; 32],
    their_spk: &[u8; 32],
) -> (s: SharedSecret)
    ensures
        s.0@ == spec_x3dh_mutual(our_ik.dh_secret@, our_spk_secret@, their_ik_dh@, their_spk@),
        forall|bob_ik: Seq<u8>, bob_spk: Seq<u8>|
            #![trigger spec_x25519_public(bob_ik), spec_x25519_public(bob_spk)]
            their_ik_dh@ == spec_x25519_public(bob_ik) && their_spk@ == spec_x25519_public(bob_spk)
                ==> s.0@ == spec_x3dh_mutual(
                bob_ik,
                bob_spk,
                spec_x25519_public(our_ik.dh_secret@),
                spec_x25519_public(our_spk_secret@),
            ),
{
    let dh_ik = x25519_diffie_hellman(&our_ik.dh_secret, their_ik_dh);
    let dh_cross_a = x25519_diffie_hellman(&our_ik.dh_secret, their_spk);
    let dh_cross_b = x25519_diffie_hellman(our_spk_secret, their_ik_dh);
    let concat = if bytes_le(dh_cross_a.as_slice(), dh_cross_b.as_slice()) {
        concat3(&dh_ik, &dh_cross_a, &dh_cross_b)
    } else {
        concat3(&dh_ik, &dh_cross_b, &dh_cross_a)
    };
    proof {
        assert(concat@ == dh_ik@ + spec_sorted_concat(dh_cross_a@, dh_cross_b@));
        lemma_sorted_concat_symmetric(dh_cross_a@, dh_cross_b@);
    }
    kdf(concat.as_slice())
}

} // verus!
