use cypher::client::onion::circuit::Circuit;
use cypher::client::onion::decoder::{decode_relay_request, decode_relay_response, extract_request_header};
use cypher::client::onion::encoder::{self, response_nonce_material};
use cypher::common::error::Error;
use cypher::crypto::identity::SignedPreKey;

fn relay_keys() -> ([u8; 32], [u8; 32]) {
    let k = SignedPreKey::generate();
    (k.secret, k.public_key())
}

#[test]
fn client_relay_derive_same_key() {
    let (relay_secret, relay_pk) = relay_keys();
    let client_circuit = Circuit::new(&relay_pk);
    let relay_circuit = Circuit::derive_relay_side(&relay_secret, &client_circuit.ephemeral_public, client_circuit.circuit_id);
    assert_eq!(client_circuit.circuit_key, relay_circuit.circuit_key);
    assert_eq!(client_circuit.circuit_id, relay_circuit.circuit_id);
}

#[test]
fn different_sessions_different_keys() {
    let (_, relay_pk) = relay_keys();
    let c1 = Circuit::new(&relay_pk);
    let c2 = Circuit::new(&relay_pk);
    assert_ne!(c1.circuit_key, c2.circuit_key);
    assert_ne!(c1.circuit_id, c2.circuit_id);
}

#[test]
fn request_roundtrip() {
    let (relay_secret, relay_pk) = relay_keys();
    let mut circuit = Circuit::new(&relay_pk);

    let payload = b"InboxFetch(inbox_42)";
    let encoded = encoder::encode_relay_request(&mut circuit, payload).unwrap();

    let (client_pk, cid, seq_no) = extract_request_header(&encoded).unwrap();
    assert_eq!(cid, circuit.circuit_id);
    let relay_circuit = Circuit::derive_relay_side(&relay_secret, &client_pk, cid);
    let decoded = decode_relay_request(&relay_circuit.circuit_key, &circuit.circuit_id, seq_no, &encoded).unwrap();

    assert_eq!(decoded, payload);
}

#[test]
fn response_roundtrip() {
    let (_, relay_pk) = relay_keys();
    let circuit = Circuit::new(&relay_pk);

    let seq_no = 42u64;
    let response_payload = b"InboxMessages(...)";
    let encoded = encoder::encode_relay_response(&circuit.circuit_key, &circuit.circuit_id, seq_no, response_payload).unwrap();

    let decoded = decode_relay_response(&circuit.circuit_key, &circuit.circuit_id, &encoded).unwrap();

    assert_eq!(decoded, response_payload);
}

#[test]
fn full_relay_flow() {
    let (relay_secret, relay_pk) = relay_keys();
    let mut circuit = Circuit::new(&relay_pk);

    let req_payload = b"fetch inbox 123";
    let onion_req = encoder::encode_relay_request(&mut circuit, req_payload).unwrap();

    let (client_pk, cid, seq_no) = extract_request_header(&onion_req).unwrap();
    let relay_circuit = Circuit::derive_relay_side(&relay_secret, &client_pk, cid);
    let decoded_req = decode_relay_request(&relay_circuit.circuit_key, &circuit.circuit_id, seq_no, &onion_req).unwrap();
    assert_eq!(decoded_req, req_payload);

    let resp_payload = b"here are your messages";
    let onion_resp = encoder::encode_relay_response(&relay_circuit.circuit_key, &circuit.circuit_id, seq_no, resp_payload).unwrap();

    let decoded_resp = decode_relay_response(&circuit.circuit_key, &circuit.circuit_id, &onion_resp).unwrap();
    assert_eq!(decoded_resp, resp_payload);
}

#[test]
fn tampered_ciphertext_fails() {
    let (relay_secret, relay_pk) = relay_keys();
    let mut circuit = Circuit::new(&relay_pk);

    let mut encoded = encoder::encode_relay_request(&mut circuit, b"test").unwrap();
    let last = encoded.len() - 1;
    encoded[last] ^= 0xFF;

    let (client_pk, cid, seq_no) = extract_request_header(&encoded).unwrap();
    let relay_circuit = Circuit::derive_relay_side(&relay_secret, &client_pk, cid);
    let result = decode_relay_request(&relay_circuit.circuit_key, &circuit.circuit_id, seq_no, &encoded);
    assert!(result.is_err());
}

#[test]
fn different_messages_different_nonces() {
    let (relay_secret, relay_pk) = relay_keys();
    let mut circuit = Circuit::new(&relay_pk);

    let enc1 = encoder::encode_relay_request(&mut circuit, b"msg1").unwrap();
    let enc2 = encoder::encode_relay_request(&mut circuit, b"msg1").unwrap();

    assert_ne!(enc1, enc2);

    let (pk1, cid1, seq1) = extract_request_header(&enc1).unwrap();
    let (_pk2, cid2, seq2) = extract_request_header(&enc2).unwrap();
    assert_eq!(seq1, 0);
    assert_eq!(seq2, 1);

    let rc = Circuit::derive_relay_side(&relay_secret, &pk1, cid1);
    let d1 = decode_relay_request(&rc.circuit_key, &cid1, seq1, &enc1).unwrap();
    let d2 = decode_relay_request(&rc.circuit_key, &cid2, seq2, &enc2).unwrap();
    assert_eq!(d1, b"msg1");
    assert_eq!(d2, b"msg1");
}

#[test]
fn request_layout() {
    let (_, relay_pk) = relay_keys();
    let mut circuit = Circuit::new(&relay_pk);
    circuit.seq = 5;
    let enc = encoder::encode_relay_request(&mut circuit, b"abc").unwrap();
    assert_eq!(enc[0], 0x02);
    assert_eq!(&enc[1..33], &circuit.ephemeral_public);
    assert_eq!(&enc[33..49], &circuit.circuit_id);
    assert_eq!(&enc[49..57], &5u64.to_le_bytes());
    assert_eq!(enc.len(), 57 + 21 + 3 + 16);
    assert_eq!(circuit.seq, 6);
}

#[test]
fn nonce_material_counts_and_wraps() {
    let (_, relay_pk) = relay_keys();
    let mut circuit = Circuit::new(&relay_pk);
    circuit.seq = u64::MAX;
    let m = circuit.next_nonce_material();
    assert_eq!(&m[..16], &circuit.circuit_id);
    assert_eq!(&m[16..], &u64::MAX.to_le_bytes());
    assert_eq!(circuit.seq, 0);
}

#[test]
fn response_nonce_sets_top_bit() {
    let m = response_nonce_material(&[7u8; 16], 1);
    assert_eq!(&m[..16], &[7u8; 16]);
    assert_eq!(&m[16..], &(1u64 | (1u64 << 63)).to_le_bytes());
}

#[test]
fn header_errors() {
    assert!(matches!(extract_request_header(&[2u8; 56]), Err(Error::Protocol(_))));
    let mut bad = vec![2u8; 57];
    bad[0] = 3;
    assert!(matches!(extract_request_header(&bad), Err(Error::Protocol(_))));
    assert!(matches!(decode_relay_request(&[0u8; 32], &[0u8; 16], 0, &bad), Err(Error::Protocol(_))));
    assert!(matches!(decode_relay_response(&[0u8; 32], &[0u8; 16], &[2u8; 8]), Err(Error::Protocol(_))));
}

#[test]
fn wrong_circuit_key_is_crypto_error() {
    let (_, relay_pk) = relay_keys();
    let mut circuit = Circuit::new(&relay_pk);
    let enc = encoder::encode_relay_request(&mut circuit, b"x").unwrap();
    let r = decode_relay_request(&[9u8; 32], &circuit.circuit_id, 0, &enc);
    assert!(matches!(r, Err(Error::Crypto(_))));
}

#[test]
fn request_decoded_as_response_fails() {
    // A response is sealed under the response nonce and subtype; a request's
    // bytes do not decode as one.
    let (_, relay_pk) = relay_keys();
    let mut circuit = Circuit::new(&relay_pk);
    let enc = encoder::encode_relay_request(&mut circuit, b"x").unwrap();
    assert!(decode_relay_response(&circuit.circuit_key, &circuit.circuit_id, &enc).is_err());
}

#[test]
fn response_nonce_differs_for_high_sequence_numbers() {
    let id = [7u8; 16];
    let s = (1u64 << 63) | 5;
    let m = response_nonce_material(&id, s);
    assert_eq!(&m[16..], &5u64.to_le_bytes());
    assert_ne!(&m[16..], &s.to_le_bytes());
}
