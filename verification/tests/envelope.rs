use cypher::common::envelope::{GatewayEnvelope, ENVELOPE_HEADER_LEN};
use cypher::common::error::Error;

#[test]
fn encode_decode_roundtrip() {
    let payload = vec![0u8, 1, 2, 255, 42];
    let bytes = GatewayEnvelope::encode(0xDEAD_BEEF_1234, &payload);
    assert_eq!(bytes.len(), ENVELOPE_HEADER_LEN + payload.len());
    let decoded = GatewayEnvelope::decode(&bytes).unwrap();
    assert_eq!(decoded.session_id, 0xDEAD_BEEF_1234);
    assert_eq!(decoded.payload, payload);
}

#[test]
fn empty_payload_roundtrips() {
    let bytes = GatewayEnvelope::encode(7, &[]);
    let decoded = GatewayEnvelope::decode(&bytes).unwrap();
    assert_eq!(decoded.session_id, 7);
    assert!(decoded.payload.is_empty());
}

#[test]
fn short_buffer_is_rejected() {
    assert!(GatewayEnvelope::decode(&[0u8; 4]).is_err());
}

#[test]
fn envelope_header_is_big_endian() {
    let bytes = GatewayEnvelope::encode(0x0102_0304_0506_0708, &[9]);
    assert_eq!(bytes, vec![1, 2, 3, 4, 5, 6, 7, 8, 9]);
}

#[test]
fn decode_exact_header_and_error_variant() {
    let d = GatewayEnvelope::decode(&[0, 0, 0, 0, 0, 0, 1, 0]).unwrap();
    assert_eq!(d.session_id, 256);
    assert!(d.payload.is_empty());
    assert!(matches!(GatewayEnvelope::decode(&[0u8; 7]), Err(Error::Protocol(_))));
}
