//! One-hop onion circuits with 0-RTT key exchange: the client's fresh
//! ephemeral X25519 key and the relay's static key agree on the circuit key.

use vstd::prelude::*;
use vstd::bytes::{spec_u64_to_le_bytes, u64_to_le_bytes};
use crate::common::byte_util::to_array;
use crate::crypto::primitives::{
    spec_hkdf_sha256, hkdf_sha256, spec_x25519_dh, spec_x25519_public, x25519_diffie_hellman,
    x25519_public_key, random_bytes,
};

verus! {

/// HKDF salt of the circuit key (`cypher-circuit-v1`).
pub const CIRCUIT_SALT: [u8; 17] = [99, 121, 112, 104, 101, 114, 45, 99, 105, 114, 99, 117, 105, 116, 45, 118, 49];

/// HKDF info of the circuit key (`circuit-key`).
pub const CIRCUIT_INFO: [u8; 11] = [99, 105, 114, 99, 117, 105, 116, 45, 107, 101, 121];

/// The circuit key derived from an X25519 output.
pub open spec fn spec_circuit_key(dh_shared: Seq<u8>) -> Seq<u8> {
    spec_hkdf_sha256(Some(CIRCUIT_SALT@), dh_shared, CIRCUIT_INFO@, 32)
}

/// Request-direction nonce material: circuit id, then the sequence number
/// (8 bytes little-endian).
pub open spec fn spec_request_nonce(circuit_id: Seq<u8>, seq_no: u64) -> Seq<u8> {
    circuit_id + spec_u64_to_le_bytes(seq_no)
}

/// A 1-hop onion circuit.
pub struct Circuit {
    /// Random identifier of this circuit.
    pub circuit_id: [u8; 16],
    /// Symmetric AEAD key derived from the DH shared secret.
    pub circuit_key: [u8; 32],
    /// Ephemeral public key embedded in outgoing messages.
    pub ephemeral_public: [u8; 32],
    /// Sequence number of the next message.
    pub seq: u64,
}

impl Circuit {
    /// A new circuit to a relay: a fresh ephemeral key pair, X25519 with the
    /// relay's static key, HKDF to the circuit key, a random circuit id. The
    /// relay that owns the static key derives the same key from our
    /// ephemeral public key (`derive_relay_side`).
    pub fn new(relay_static_pk: &[u8; 32]) -> (c: Self)
        ensures
            c.seq == 0,
            exists|ek: Seq<u8>|
                c.ephemeral_public@ == spec_x25519_public(ek) && c.circuit_key@ == spec_circuit_key(
                    spec_x25519_dh(ek, relay_static_pk@),
                ),
            forall|relay_secret: Seq<u8>|
                #![trigger spec_x25519_public(relay_secret)]
                relay_static_pk@ == spec_x25519_public(relay_secret) ==> c.circuit_key@ == spec_circuit_key(
                    spec_x25519_dh(relay_secret, c.ephemeral_public@),
                ),
    {
        let ek: [u8; 32] = random_bytes();
        let ephemeral_public = x25519_public_key(&ek);
        let dh_shared = x25519_diffie_hellman(&ek, relay_static_pk);
        let circuit_key: [u8; 32] = hkdf_sha256(Some(CIRCUIT_SALT.as_slice()), dh_shared.as_slice(), CIRCUIT_INFO.as_slice());
        let circuit_id: [u8; 16] = random_bytes();
        Circuit { circuit_id, circuit_key, ephemeral_public, seq: 0 }
    }

    /// The relay side of a circuit: the key from the relay's static secret
    /// and the client's ephemeral public key.
    pub fn derive_relay_side(relay_static_secret: &[u8; 32], client_ephemeral_pk: &[u8; 32], circuit_id: [u8; 16]) -> (c: Self)
        ensures
            c.circuit_id == circuit_id,
            c.circuit_key@ == spec_circuit_key(spec_x25519_dh(relay_static_secret@, client_ephemeral_pk@)),
            c.ephemeral_public == *client_ephemeral_pk,
            c.seq == 0,
    {
        let dh_shared = x25519_diffie_hellman(relay_static_secret, client_ephemeral_pk);
        let circuit_key: [u8; 32] = hkdf_sha256(Some(CIRCUIT_SALT.as_slice()), dh_shared.as_slice(), CIRCUIT_INFO.as_slice());
        Circuit { circuit_id, circuit_key, ephemeral_public: *client_ephemeral_pk, seq: 0 }
    }

    /// The next nonce material, `circuit_id || seq_no (8 bytes LE)`; each
    /// call takes the next sequence number (wrapping, as an atomic counter
    /// does), so no two messages of a circuit share a nonce.
    pub fn next_nonce_material(&mut self) -> (m: [u8; 24])
        ensures
            m@ == spec_request_nonce(old(self).circuit_id@, old(self).seq),
            final(self).seq == old(self).seq.wrapping_add(1),
            final(self).circuit_id == old(self).circuit_id,
            final(self).circuit_key == old(self).circuit_key,
            final(self).ephemeral_public == old(self).ephemeral_public,
    {
        let seq = self.seq;
        self.seq = self.seq.wrapping_add(1);
        let mut v: Vec<u8> = Vec::new();
        v.extend_from_slice(self.circuit_id.as_slice());
        let le = u64_to_le_bytes(seq);
        v.extend_from_slice(le.as_slice());
        to_array(v.as_slice())
    }
}

} // verus!
