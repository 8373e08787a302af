//! Decoding of onion relay requests (relay side) and responses (client side).

use vstd::prelude::*;
use vstd::bytes::{
    spec_u64_to_le_bytes, spec_u64_from_le_bytes, spec_u32_to_le_bytes, spec_u32_from_le_bytes,
    u64_from_le_bytes, u32_from_le_bytes, lemma_auto_spec_u64_to_from_le_bytes,
    lemma_auto_spec_u32_to_from_le_bytes,
};
use crate::common::byte_util::{to_array, bytes_eq};
use crate::common::error::{Result, protocol_error};
use crate::crypto::aead::{aead_decrypt, spec_aead_open, spec_aead_seal};
use crate::crypto::primitives::AES_GCM_P_MAX;
use crate::client::onion::circuit::spec_request_nonce;
use crate::client::onion::encoder::{
    response_nonce_material, spec_encode_request, spec_encode_response, spec_inner,
    spec_response_nonce, ONION_PREFIX, SUBTYPE_RELAY_REQUEST, SUBTYPE_RELAY_RESPONSE,
};

verus! {

/// Length of a request's cleartext header: prefix, ephemeral key, circuit
/// id, sequence number.
pub const REQUEST_HEADER_LEN: usize = 57;

/// Length of a response's cleartext header: prefix, sequence number.
pub const RESPONSE_HEADER_LEN: usize = 9;

/// The payload of a sealed inner message of the given subtype, if it is
/// well formed; for a request the circuit id inside must also match.
pub open spec fn spec_parse_inner(inner: Seq<u8>, subtype: u8, circuit_id: Option<Seq<u8>>) -> Option<Seq<u8>> {
    if inner.len() == 0 || inner[0] != subtype || inner.len() < 21 {
        None
    } else if circuit_id is Some && inner.subrange(1, 17) != circuit_id.unwrap() {
        None
    } else {
        let plen = spec_u32_from_le_bytes(inner.subrange(17, 21)) as int;
        if 21 + plen > inner.len() {
            None
        } else {
            Some(inner.subrange(21, 21 + plen))
        }
    }
}

/// A well-formed inner message parses back to its payload.
pub proof fn lemma_parse_inner(subtype: u8, circuit_id: Seq<u8>, payload: Seq<u8>, check_id: bool)
    requires
        circuit_id.len() == 16,
        payload.len() <= u32::MAX,
    ensures
        spec_parse_inner(
            spec_inner(subtype, circuit_id, payload),
            subtype,
            if check_id { Some(circuit_id) } else { None },
        ) == Some(payload),
{
    lemma_auto_spec_u32_to_from_le_bytes();
    let inner = spec_inner(subtype, circuit_id, payload);
    let le = spec_u32_to_le_bytes(payload.len() as u32);
    assert(inner.subrange(1, 17) =~= circuit_id);
    assert(inner.subrange(17, 21) =~= le);
    assert(inner.subrange(21, 21 + payload.len() as int) =~= payload);
}

fn parse_inner(inner: &[u8], subtype: u8, circuit_id: Option<&[u8; 16]>) -> (r: Result<Vec<u8>>)
    ensures
        r is Ok <==> spec_parse_inner(
            inner@,
            subtype,
            match circuit_id {
                Some(c) => Some(c@),
                None => None,
            },
        ) is Some,
        r is Ok ==> Some(r->Ok_0@) == spec_parse_inner(
            inner@,
            subtype,
            match circuit_id {
                Some(c) => Some(c@),
                None => None,
            },
        ),
        r is Err ==> r->Err_0 is Protocol,
{
    if inner.len() == 0 || inner[0] != subtype {
        return Err(protocol_error("unexpected onion subtype"));
    }
    if inner.len() < 21 {
        return Err(protocol_error("onion inner too short"));
    }
    match circuit_id {
        Some(c) => {
            if !bytes_eq(vstd::slice::slice_subrange(inner, 1, 17), c.as_slice()) {
                return Err(protocol_error("circuit_id mismatch in onion"));
            }
        },
        None => {},
    }
    let payload_len = u32_from_le_bytes(vstd::slice::slice_subrange(inner, 17, 21)) as usize;
    if payload_len > inner.len() - 21 {
        return Err(protocol_error("onion payload length exceeds inner"));
    }
    Ok(vstd::slice::slice_to_vec(vstd::slice::slice_subrange(inner, 21, 21 + payload_len)))
}

/// The ephemeral public key, circuit id and sequence number of a raw onion
/// request. Fewer than 57 bytes, or a wrong prefix, is a protocol error. The
/// header of an encoded request gives back what it was encoded with.
pub fn extract_request_header(data: &[u8]) -> (r: Result<([u8; 32], [u8; 16], u64)>)
    ensures
        r is Ok <==> data@.len() >= REQUEST_HEADER_LEN && data@[0] == ONION_PREFIX,
        r is Ok ==> r->Ok_0.0@ == data@.subrange(1, 33) && r->Ok_0.1@ == data@.subrange(33, 49)
            && r->Ok_0.2 == spec_u64_from_le_bytes(data@.subrange(49, 57)),
        r is Err ==> r->Err_0 is Protocol,
        forall|key: Seq<u8>, eph: Seq<u8>, cid: Seq<u8>, seq_no: u64, p: Seq<u8>|
            #![trigger spec_encode_request(key, eph, cid, seq_no, p)]
            eph.len() == 32 && cid.len() == 16 && data@ == spec_encode_request(key, eph, cid, seq_no, p)
                ==> r is Ok && r->Ok_0.0@ == eph && r->Ok_0.1@ == cid && r->Ok_0.2 == seq_no,
{
    proof {
        lemma_auto_spec_u64_to_from_le_bytes();
        assert forall|key: Seq<u8>, eph: Seq<u8>, cid: Seq<u8>, seq_no: u64, p: Seq<u8>|
            eph.len() == 32 && cid.len() == 16 && data@ == #[trigger] spec_encode_request(key, eph, cid, seq_no, p)
            implies data@.len() >= 57 && data@[0] == ONION_PREFIX && data@.subrange(1, 33) == eph
                && data@.subrange(33, 49) == cid && data@.subrange(49, 57) == spec_u64_to_le_bytes(seq_no) by {
            assert(data@.subrange(1, 33) =~= eph);
            assert(data@.subrange(33, 49) =~= cid);
            assert(data@.subrange(49, 57) =~= spec_u64_to_le_bytes(seq_no));
        }
    }
    if data.len() < REQUEST_HEADER_LEN {
        return Err(protocol_error("onion request too short for header"));
    }
    if data[0] != ONION_PREFIX {
        return Err(protocol_error("missing onion prefix"));
    }
    let pk: [u8; 32] = to_array(vstd::slice::slice_subrange(data, 1, 33));
    let circuit_id: [u8; 16] = to_array(vstd::slice::slice_subrange(data, 33, 49));
    let seq_no = u64_from_le_bytes(vstd::slice::slice_subrange(data, 49, 57));
    Ok((pk, circuit_id, seq_no))
}

/// What `decode_relay_request` returns for a well-framed request whose
/// ciphertext opened: the parsed payload, or `None` if malformed.
pub open spec fn spec_request_opened(key: Seq<u8>, circuit_id: Seq<u8>, seq_no: u64, data: Seq<u8>) -> Option<Seq<u8>> {
    spec_aead_open(key, spec_request_nonce(circuit_id, seq_no), data.subrange(57, data.len() as int), circuit_id)
}

/// Decodes a relay request on the relay side, with the circuit key the
/// relay derived. Bad framing or a malformed inner message is a protocol
/// error; a ciphertext that does not open is a crypto error. A request
/// encoded under the same key, circuit id and sequence number decodes to
/// its payload.
pub fn decode_relay_request(circuit_key: &[u8; 32], circuit_id: &[u8; 16], seq_no: u64, data: &[u8]) -> (r: Result<Vec<u8>>)
    ensures
        !(data@.len() >= REQUEST_HEADER_LEN && data@[0] == ONION_PREFIX) ==> r is Err && r->Err_0 is Protocol,
        ({
            let opened = spec_request_opened(circuit_key@, circuit_id@, seq_no, data@);
            data@.len() >= REQUEST_HEADER_LEN && data@[0] == ONION_PREFIX ==> {
                &&& opened is None ==> r is Err && r->Err_0 is Crypto
                &&& opened is Some ==> (r is Ok <==> spec_parse_inner(
                    opened.unwrap(),
                    SUBTYPE_RELAY_REQUEST,
                    Some(circuit_id@),
                ) is Some)
                &&& opened is Some && r is Ok ==> Some(r->Ok_0@) == spec_parse_inner(
                    opened.unwrap(),
                    SUBTYPE_RELAY_REQUEST,
                    Some(circuit_id@),
                )
                &&& opened is Some && r is Err ==> r->Err_0 is Protocol
            }
        }),
        forall|eph: Seq<u8>, p: Seq<u8>|
            #![trigger spec_encode_request(circuit_key@, eph, circuit_id@, seq_no, p)]
            eph.len() == 32 && p.len() <= u32::MAX && 21 + p.len() <= AES_GCM_P_MAX && data@
                == spec_encode_request(circuit_key@, eph, circuit_id@, seq_no, p) ==> r is Ok && r->Ok_0@ == p,
{
    proof {
        assert forall|eph: Seq<u8>, p: Seq<u8>|
            eph.len() == 32 && data@ == #[trigger] spec_encode_request(circuit_key@, eph, circuit_id@, seq_no, p)
            implies data@.len() >= REQUEST_HEADER_LEN && data@[0] == ONION_PREFIX by {
            lemma_request_ciphertext(circuit_key@, eph, circuit_id@, seq_no, p);
        }
    }
    if data.len() < REQUEST_HEADER_LEN {
        return Err(protocol_error("onion request too short"));
    }
    if data[0] != ONION_PREFIX {
        return Err(protocol_error("missing onion prefix"));
    }
    let ciphertext = vstd::slice::slice_subrange(data, REQUEST_HEADER_LEN, data.len());
    let mut nonce: Vec<u8> = Vec::new();
    nonce.extend_from_slice(circuit_id.as_slice());
    let seq_le = vstd::bytes::u64_to_le_bytes(seq_no);
    nonce.extend_from_slice(seq_le.as_slice());
    assert(nonce@ =~= spec_request_nonce(circuit_id@, seq_no));
    let inner = match aead_decrypt(circuit_key, nonce.as_slice(), ciphertext, circuit_id.as_slice()) {
        Ok(inner) => inner,
        Err(e) => {
            proof {
                assert forall|eph: Seq<u8>, p: Seq<u8>|
                    eph.len() == 32 && p.len() <= u32::MAX && 21 + p.len() <= AES_GCM_P_MAX && data@
                        == #[trigger] spec_encode_request(circuit_key@, eph, circuit_id@, seq_no, p) implies false by {
                    lemma_request_ciphertext(circuit_key@, eph, circuit_id@, seq_no, p);
                }
            }
            return Err(e);
        },
    };
    let r = parse_inner(inner.as_slice(), SUBTYPE_RELAY_REQUEST, Some(circuit_id));
    proof {
        assert forall|eph: Seq<u8>, p: Seq<u8>|
            eph.len() == 32 && p.len() <= u32::MAX && 21 + p.len() <= AES_GCM_P_MAX && data@
                == #[trigger] spec_encode_request(circuit_key@, eph, circuit_id@, seq_no, p) implies r is Ok
            && r->Ok_0@ == p by {
            lemma_request_ciphertext(circuit_key@, eph, circuit_id@, seq_no, p);
            lemma_parse_inner(SUBTYPE_RELAY_REQUEST, circuit_id@, p, true);
        }
    }
    r
}

proof fn lemma_request_ciphertext(key: Seq<u8>, eph: Seq<u8>, cid: Seq<u8>, seq_no: u64, p: Seq<u8>)
    requires
        eph.len() == 32,
        cid.len() == 16,
    ensures
        ({
            let d = spec_encode_request(key, eph, cid, seq_no, p);
            &&& d.len() >= 57
            &&& d[0] == ONION_PREFIX
            &&& d.subrange(57, d.len() as int) == spec_aead_seal(
                key,
                spec_request_nonce(cid, seq_no),
                spec_inner(SUBTYPE_RELAY_REQUEST, cid, p),
                cid,
            )
            &&& spec_inner(SUBTYPE_RELAY_REQUEST, cid, p).len() == 21 + p.len()
        }),
{
    lemma_auto_spec_u64_to_from_le_bytes();
    lemma_auto_spec_u32_to_from_le_bytes();
    let d = spec_encode_request(key, eph, cid, seq_no, p);
    let ct = spec_aead_seal(key, spec_request_nonce(cid, seq_no), spec_inner(SUBTYPE_RELAY_REQUEST, cid, p), cid);
    assert(d.subrange(57, d.len() as int) =~= ct);
}

proof fn lemma_response_ciphertext(key: Seq<u8>, cid: Seq<u8>, seq_no: u64, p: Seq<u8>)
    requires
        cid.len() == 16,
    ensures
        ({
            let d = spec_encode_response(key, cid, seq_no, p);
            &&& d.len() >= 9
            &&& d[0] == ONION_PREFIX
            &&& spec_u64_from_le_bytes(d.subrange(1, 9)) == seq_no
            &&& d.subrange(9, d.len() as int) == spec_aead_seal(
                key,
                spec_response_nonce(cid, seq_no),
                spec_inner(SUBTYPE_RELAY_RESPONSE, cid, p),
                cid,
            )
            &&& spec_inner(SUBTYPE_RELAY_RESPONSE, cid, p).len() == 21 + p.len()
        }),
{
    lemma_auto_spec_u64_to_from_le_bytes();
    lemma_auto_spec_u32_to_from_le_bytes();
    let d = spec_encode_response(key, cid, seq_no, p);
    let ct = spec_aead_seal(key, spec_response_nonce(cid, seq_no), spec_inner(SUBTYPE_RELAY_RESPONSE, cid, p), cid);
    assert(d.subrange(1, 9) =~= spec_u64_to_le_bytes(seq_no));
    assert(d.subrange(9, d.len() as int) =~= ct);
}

/// What the sealed part of a well-framed response opens to, if anything.
pub open spec fn spec_response_opened(key: Seq<u8>, circuit_id: Seq<u8>, data: Seq<u8>) -> Option<Seq<u8>> {
    spec_aead_open(
        key,
        spec_response_nonce(circuit_id, spec_u64_from_le_bytes(data.subrange(1, 9))),
        data.subrange(9, data.len() as int),
        circuit_id,
    )
}

/// Decodes a relay response on the client side. Bad framing or a malformed
/// inner message is a protocol error; a ciphertext that does not open is a
/// crypto error. A response encoded under the same key and circuit id
/// decodes to its payload.
pub fn decode_relay_response(circuit_key: &[u8; 32], circuit_id: &[u8; 16], data: &[u8]) -> (r: Result<Vec<u8>>)
    ensures
        !(data@.len() >= RESPONSE_HEADER_LEN && data@[0] == ONION_PREFIX) ==> r is Err && r->Err_0 is Protocol,
        ({
            let opened = spec_response_opened(circuit_key@, circuit_id@, data@);
            data@.len() >= RESPONSE_HEADER_LEN && data@[0] == ONION_PREFIX ==> {
                &&& opened is None ==> r is Err && r->Err_0 is Crypto
                &&& opened is Some ==> (r is Ok <==> spec_parse_inner(
                    opened.unwrap(),
                    SUBTYPE_RELAY_RESPONSE,
                    None,
                ) is Some)
                &&& opened is Some && r is Ok ==> Some(r->Ok_0@) == spec_parse_inner(
                    opened.unwrap(),
                    SUBTYPE_RELAY_RESPONSE,
                    None,
                )
                &&& opened is Some && r is Err ==> r->Err_0 is Protocol
            }
        }),
        forall|seq_no: u64, p: Seq<u8>|
            #![trigger spec_encode_response(circuit_key@, circuit_id@, seq_no, p)]
            p.len() <= u32::MAX && 21 + p.len() <= AES_GCM_P_MAX && data@ == spec_encode_response(
                circuit_key@,
                circuit_id@,
                seq_no,
                p,
            ) ==> r is Ok && r->Ok_0@ == p,
{
    proof {
        assert forall|s: u64, p: Seq<u8>|
            data@ == #[trigger] spec_encode_response(circuit_key@, circuit_id@, s, p)
            implies data@.len() >= RESPONSE_HEADER_LEN && data@[0] == ONION_PREFIX by {
            lemma_response_ciphertext(circuit_key@, circuit_id@, s, p);
        }
    }
    if data.len() < RESPONSE_HEADER_LEN || data[0] != ONION_PREFIX {
        return Err(protocol_error("missing onion prefix in response"));
    }
    let seq_no = u64_from_le_bytes(vstd::slice::slice_subrange(data, 1, 9));
    let ciphertext = vstd::slice::slice_subrange(data, RESPONSE_HEADER_LEN, data.len());
    let nonce_material = response_nonce_material(circuit_id, seq_no);
    let inner = match aead_decrypt(circuit_key, nonce_material.as_slice(), ciphertext, circuit_id.as_slice()) {
        Ok(inner) => inner,
        Err(e) => {
            proof {
                assert forall|s: u64, p: Seq<u8>|
                    p.len() <= u32::MAX && 21 + p.len() <= AES_GCM_P_MAX && data@
                        == #[trigger] spec_encode_response(circuit_key@, circuit_id@, s, p) implies false by {
                    lemma_response_ciphertext(circuit_key@, circuit_id@, s, p);
                }
            }
            return Err(e);
        },
    };
    let r = parse_inner(inner.as_slice(), SUBTYPE_RELAY_RESPONSE, None);
    proof {
        assert forall|s: u64, p: Seq<u8>|
            p.len() <= u32::MAX && 21 + p.len() <= AES_GCM_P_MAX && data@
                == #[trigger] spec_encode_response(circuit_key@, circuit_id@, s, p) implies r is Ok && r->Ok_0@
            == p by {
            lemma_response_ciphertext(circuit_key@, circuit_id@, s, p);
            lemma_parse_inner(SUBTYPE_RELAY_RESPONSE, circuit_id@, p, false);
        }
    }
    r
}

} // verus!
