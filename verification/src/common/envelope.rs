//! Binary envelope for gateway to signaling messages: an 8-byte big-endian
//! session id followed by the raw payload.

use vstd::prelude::*;
use vstd::bytes::*;
use crate::common::error::{Result, protocol_error};

verus! {

/// Size of the fixed `session_id` header prefixing every envelope.
pub const ENVELOPE_HEADER_LEN: usize = 8;

/// Big-endian bytes of a `u64`.
pub open spec fn spec_u64_be(x: u64) -> Seq<u8> {
    spec_u64_to_le_bytes(x).reverse()
}

/// The wire form of an envelope.
pub open spec fn spec_envelope(session_id: u64, payload: Seq<u8>) -> Seq<u8> {
    spec_u64_be(session_id) + payload
}

/// A decoded gateway to signaling envelope.
#[derive(Debug, Clone)]
pub struct GatewayEnvelope {
    pub session_id: u64,
    pub payload: Vec<u8>,
}

impl GatewayEnvelope {
    /// Encode `session_id` (8 bytes, big-endian) followed by the raw payload.
    pub fn encode(session_id: u64, payload: &[u8]) -> (out: Vec<u8>)
        ensures
            out@ == spec_envelope(session_id, payload@),
            out@.len() == ENVELOPE_HEADER_LEN + payload@.len(),
    {
        proof { lemma_auto_spec_u64_to_from_le_bytes(); }
        let le = u64_to_le_bytes(session_id);
        let mut out: Vec<u8> = Vec::with_capacity(8);
        let mut i: usize = 8;
        while i > 0
            invariant
                i <= 8,
                le@ == spec_u64_to_le_bytes(session_id),
                le@.len() == 8,
                out@ == le@.reverse().subrange(0, (8 - i) as int),
            decreases i,
        {
            i = i - 1;
            out.push(le[i]);
            assert(out@ =~= le@.reverse().subrange(0, (8 - i) as int));
        }
        assert(out@ =~= le@.reverse());
        out.extend_from_slice(payload);
        out
    }

    /// Decode an envelope produced by [`encode`](Self::encode).
    pub fn decode(data: &[u8]) -> (r: Result<Self>)
        ensures
            data@.len() < ENVELOPE_HEADER_LEN <==> r is Err,
            r is Err ==> r->Err_0 is Protocol,
            r matches Ok(env) ==> spec_envelope(env.session_id, env.payload@) == data@,
    {
        if data.len() < ENVELOPE_HEADER_LEN {
            return Err(protocol_error("gateway envelope too short"));
        }
        let mut le: Vec<u8> = Vec::with_capacity(8);
        let mut i: usize = 8;
        while i > 0
            invariant
                i <= 8,
                data@.len() >= 8,
                le@ == data@.subrange(0, 8).reverse().subrange(0, (8 - i) as int),
            decreases i,
        {
            i = i - 1;
            le.push(data[i]);
            assert(le@ =~= data@.subrange(0, 8).reverse().subrange(0, (8 - i) as int));
        }
        assert(le@ =~= data@.subrange(0, 8).reverse());
        let session_id = u64_from_le_bytes(le.as_slice());
        let payload = vstd::slice::slice_to_vec(vstd::slice::slice_subrange(data, 8, data.len()));
        proof {
            lemma_auto_spec_u64_to_from_le_bytes();
            assert(spec_u64_to_le_bytes(session_id) == le@);
            assert(le@.reverse() =~= data@.subrange(0, 8));
            assert(spec_envelope(session_id, payload@) =~= data@);
        }
        Ok(GatewayEnvelope { session_id, payload })
    }
}

/// Decoding an encoded envelope gives back its session id and payload.
pub proof fn lemma_envelope_roundtrip(session_id: u64, payload: Seq<u8>, s2: u64, p2: Seq<u8>)
    requires
        spec_envelope(s2, p2) == spec_envelope(session_id, payload),
    ensures
        s2 == session_id,
        p2 == payload,
{
    lemma_auto_spec_u64_to_from_le_bytes();
    let e = spec_envelope(session_id, payload);
    assert(spec_envelope(s2, p2).subrange(0, 8) =~= spec_u64_be(s2));
    assert(e.subrange(0, 8) =~= spec_u64_be(session_id));
    assert(spec_u64_be(s2).reverse() =~= spec_u64_to_le_bytes(s2));
    assert(spec_u64_be(session_id).reverse() =~= spec_u64_to_le_bytes(session_id));
    assert(p2 =~= spec_envelope(s2, p2).subrange(8, spec_envelope(s2, p2).len() as int));
    assert(payload =~= e.subrange(8, e.len() as int));
}

} // verus!
