//! Onion framing of relay requests (client to relay) and responses (relay
//! to client).
//!
//! Request: `[0x02][32B ephemeral public][16B circuit id][8B seq LE][AEAD ciphertext]`.
//! Response: `[0x02][8B seq LE][AEAD ciphertext]`.
//! Sealed inside: `[subtype][16B circuit id][u32 LE payload length][payload]`,
//! with the circuit id as associated data.

use vstd::prelude::*;
use vstd::bytes::{spec_u64_to_le_bytes, spec_u32_to_le_bytes, u64_to_le_bytes, u32_to_le_bytes, lemma_auto_spec_u32_to_from_le_bytes, lemma_auto_spec_u64_to_from_le_bytes};
use crate::common::byte_util::to_array;
use crate::common::error::Result;
use crate::crypto::aead::{aead_encrypt, spec_aead_seal};
use crate::crypto::primitives::AES_GCM_P_MAX;
use crate::client::onion::circuit::{Circuit, spec_request_nonce};

verus! {

/// Onion control message prefix byte.
pub const ONION_PREFIX: u8 = 0x02;

/// Subtype of a relay request.
pub const SUBTYPE_RELAY_REQUEST: u8 = 0x02;

/// Subtype of a relay response.
pub const SUBTYPE_RELAY_RESPONSE: u8 = 0x03;

/// The sealed inner message: subtype, circuit id, payload length, payload.
pub open spec fn spec_inner(subtype: u8, circuit_id: Seq<u8>, payload: Seq<u8>) -> Seq<u8> {
    seq![subtype] + circuit_id + spec_u32_to_le_bytes(payload.len() as u32) + payload
}

/// Response-direction nonce material: the sequence number with its top bit
/// flipped, so it never meets the request nonce of the same number.
pub open spec fn spec_response_nonce(circuit_id: Seq<u8>, seq_no: u64) -> Seq<u8> {
    circuit_id + spec_u64_to_le_bytes(seq_no ^ 0x8000_0000_0000_0000u64)
}

/// The wire form of a relay request.
pub open spec fn spec_encode_request(key: Seq<u8>, ephemeral: Seq<u8>, circuit_id: Seq<u8>, seq_no: u64, payload: Seq<u8>) -> Seq<u8> {
    seq![ONION_PREFIX] + ephemeral + circuit_id + spec_u64_to_le_bytes(seq_no) + spec_aead_seal(
        key,
        spec_request_nonce(circuit_id, seq_no),
        spec_inner(SUBTYPE_RELAY_REQUEST, circuit_id, payload),
        circuit_id,
    )
}

/// The wire form of a relay response.
pub open spec fn spec_encode_response(key: Seq<u8>, circuit_id: Seq<u8>, seq_no: u64, payload: Seq<u8>) -> Seq<u8> {
    seq![ONION_PREFIX] + spec_u64_to_le_bytes(seq_no) + spec_aead_seal(
        key,
        spec_response_nonce(circuit_id, seq_no),
        spec_inner(SUBTYPE_RELAY_RESPONSE, circuit_id, payload),
        circuit_id,
    )
}

fn build_inner(subtype: u8, circuit_id: &[u8; 16], payload: &[u8]) -> (v: Vec<u8>)
    ensures
        v@ == spec_inner(subtype, circuit_id@, payload@),
        v@.len() == 21 + payload@.len(),
{
    proof {
        lemma_auto_spec_u32_to_from_le_bytes();
    }
    let mut inner: Vec<u8> = Vec::new();
    inner.push(subtype);
    inner.extend_from_slice(circuit_id.as_slice());
    let len_le = u32_to_le_bytes(payload.len() as u32);
    inner.extend_from_slice(len_le.as_slice());
    inner.extend_from_slice(payload);
    proof {
        assert(inner@ =~= spec_inner(subtype, circuit_id@, payload@));
    }
    inner
}

/// Encodes a relay request on a circuit, taking the circuit's next sequence
/// number. It fails (a crypto error) only when the sealed message would
/// exceed the AEAD limit.
pub fn encode_relay_request(circuit: &mut Circuit, request_payload: &[u8]) -> (r: Result<Vec<u8>>)
    ensures
        final(circuit).seq == old(circuit).seq.wrapping_add(1),
        final(circuit).circuit_id == old(circuit).circuit_id,
        final(circuit).circuit_key == old(circuit).circuit_key,
        final(circuit).ephemeral_public == old(circuit).ephemeral_public,
        r is Ok <==> 21 + request_payload@.len() <= AES_GCM_P_MAX,
        r is Ok ==> r->Ok_0@ == spec_encode_request(
            old(circuit).circuit_key@,
            old(circuit).ephemeral_public@,
            old(circuit).circuit_id@,
            old(circuit).seq,
            request_payload@,
        ),
        r is Err ==> r->Err_0 is Crypto,
{
    let seq_no = circuit.seq;
    let nonce_material = circuit.next_nonce_material();
    let inner = build_inner(SUBTYPE_RELAY_REQUEST, &circuit.circuit_id, request_payload);
    let ciphertext = aead_encrypt(&circuit.circuit_key, nonce_material.as_slice(), inner.as_slice(), circuit.circuit_id.as_slice())?;
    let mut out: Vec<u8> = Vec::new();
    out.push(ONION_PREFIX);
    out.extend_from_slice(circuit.ephemeral_public.as_slice());
    out.extend_from_slice(circuit.circuit_id.as_slice());
    let seq_le = u64_to_le_bytes(seq_no);
    out.extend_from_slice(seq_le.as_slice());
    out.extend_from_slice(ciphertext.as_slice());
    proof {
        assert(out@ =~= spec_encode_request(
            circuit.circuit_key@,
            circuit.ephemeral_public@,
            circuit.circuit_id@,
            seq_no,
            request_payload@,
        ));
    }
    Ok(out)
}

/// Encodes a relay response under the request's sequence number. It fails
/// (a crypto error) only when the sealed message would exceed the AEAD limit.
pub fn encode_relay_response(circuit_key: &[u8; 32], circuit_id: &[u8; 16], seq_no: u64, response_payload: &[u8]) -> (r: Result<Vec<u8>>)
    ensures
        r is Ok <==> 21 + response_payload@.len() <= AES_GCM_P_MAX,
        r is Ok ==> r->Ok_0@ == spec_encode_response(circuit_key@, circuit_id@, seq_no, response_payload@),
        r is Ok ==> r->Ok_0@.len() == 9 + 21 + response_payload@.len() + 16,
        r is Err ==> r->Err_0 is Crypto,
{
    let nonce_material = response_nonce_material(circuit_id, seq_no);
    let inner = build_inner(SUBTYPE_RELAY_RESPONSE, circuit_id, response_payload);
    let ciphertext = aead_encrypt(circuit_key, nonce_material.as_slice(), inner.as_slice(), circuit_id.as_slice())?;
    let mut out: Vec<u8> = Vec::new();
    out.push(ONION_PREFIX);
    let seq_le = u64_to_le_bytes(seq_no);
    out.extend_from_slice(seq_le.as_slice());
    out.extend_from_slice(ciphertext.as_slice());
    proof {
        assert(out@ =~= spec_encode_response(circuit_key@, circuit_id@, seq_no, response_payload@));
    }
    Ok(out)
}

/// Nonce material of the response direction: `circuit_id || (seq_no ^ 1 << 63)`.
pub fn response_nonce_material(circuit_id: &[u8; 16], seq_no: u64) -> (m: [u8; 24])
    ensures
        m@ == spec_response_nonce(circuit_id@, seq_no),
{
    let response_seq = seq_no ^ 0x8000_0000_0000_0000u64;
    let mut v: Vec<u8> = Vec::new();
    v.extend_from_slice(circuit_id.as_slice());
    let le = u64_to_le_bytes(response_seq);
    v.extend_from_slice(le.as_slice());
    to_array(v.as_slice())
}

/// Nonce separation on one circuit: requests with different sequence
/// numbers get different nonce material, and so do responses; a request and
/// the response of the same sequence number never share nonce material; and
/// no request numbered below 2^63 shares it with a response numbered below
/// 2^63.
pub proof fn lemma_nonces_distinct(circuit_id: Seq<u8>, s1: u64, s2: u64, t: u64)
    requires
        circuit_id.len() == 16,
    ensures
        s1 != s2 ==> spec_request_nonce(circuit_id, s1) != spec_request_nonce(circuit_id, s2),
        s1 != s2 ==> spec_response_nonce(circuit_id, s1) != spec_response_nonce(circuit_id, s2),
        spec_request_nonce(circuit_id, s1) != spec_response_nonce(circuit_id, s1),
        s1 < 0x8000_0000_0000_0000u64 && t < 0x8000_0000_0000_0000u64 ==> spec_request_nonce(circuit_id, s1)
            != spec_response_nonce(circuit_id, t),
{
    lemma_auto_spec_u64_to_from_le_bytes();
    let a = spec_request_nonce(circuit_id, s1);
    let b = spec_request_nonce(circuit_id, s2);
    let c = spec_response_nonce(circuit_id, t);
    let c1 = spec_response_nonce(circuit_id, s1);
    let c2 = spec_response_nonce(circuit_id, s2);
    assert(a.subrange(16, 24) =~= spec_u64_to_le_bytes(s1));
    assert(b.subrange(16, 24) =~= spec_u64_to_le_bytes(s2));
    assert(c.subrange(16, 24) =~= spec_u64_to_le_bytes(t ^ 0x8000_0000_0000_0000u64));
    assert(c1.subrange(16, 24) =~= spec_u64_to_le_bytes(s1 ^ 0x8000_0000_0000_0000u64));
    assert(c2.subrange(16, 24) =~= spec_u64_to_le_bytes(s2 ^ 0x8000_0000_0000_0000u64));
    assert((s1 ^ 0x8000_0000_0000_0000u64) != s1) by (bit_vector);
    assert(s1 != s2 ==> (s1 ^ 0x8000_0000_0000_0000u64) != (s2 ^ 0x8000_0000_0000_0000u64)) by (bit_vector);
    assert(s1 < 0x8000_0000_0000_0000u64 && t < 0x8000_0000_0000_0000u64 ==> (t ^ 0x8000_0000_0000_0000u64) != s1)
        by (bit_vector);
}

} // verus!
