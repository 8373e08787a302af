use cypher::client::onion::bootstrap::{
    claim_token_timestamp, InboxMessages, SignedInboxResponse, TransportBootstrap, TransportBootstrapInfo,
    CAPABILITY_RELAY, CAPABILITY_SIGNED_INBOX,
};
use cypher::client::onion::circuit::Circuit;
use cypher::client::onion::fetcher::{settle_fetched, FetchJob};
use cypher::client::onion::encoder;
use cypher::common::error::Error;
use ed25519_dalek::{Signer, SigningKey};

/// Stand-in for a serialised inbox listing; which bytes decode as one is
/// decided by the protocol crate, and `parse` is told.
fn listing_bytes(inbox: &InboxMessages) -> Vec<u8> {
    let mut v = vec![0xA5u8];
    v.extend_from_slice(&(inbox.messages.len() as u32).to_le_bytes());
    v.extend_from_slice(&inbox.messages);
    v.extend_from_slice(&inbox.count.to_le_bytes());
    v
}

#[test]
fn parses_legacy_inbox_payload() {
    let inbox = InboxMessages { messages: b"hello".to_vec(), count: 1 };
    let payload = listing_bytes(&inbox);

    let parsed = SignedInboxResponse::parse(&payload, false, true).unwrap();
    assert_eq!(parsed.proto_payload, payload);
    assert!(parsed.claim_token.is_none());
    assert!(parsed.server_sig.is_none());
}

#[test]
fn rejects_tampered_signature() {
    let signing_key = SigningKey::from_bytes(&[7u8; 32]);
    let verifying_key = signing_key.verifying_key();
    let inbox_id = b"inbox";
    let timestamp = 1234u64;
    let inbox = InboxMessages { messages: b"ciphertext".to_vec(), count: 1 };
    let proto_payload = listing_bytes(&inbox);
    let mut signed = Vec::new();
    signed.extend_from_slice(&inbox.messages);
    signed.extend_from_slice(&inbox.count.to_le_bytes());
    signed.extend_from_slice(inbox_id);
    signed.extend_from_slice(&timestamp.to_le_bytes());

    let mut raw = proto_payload.clone();
    let mut claim_token = Vec::from(timestamp.to_le_bytes());
    claim_token.extend_from_slice(&[9u8; 32]);
    raw.extend_from_slice(&claim_token);
    let mut signature = signing_key.sign(&signed).to_bytes();
    signature[0] ^= 0xFF;
    raw.extend_from_slice(&signature);

    let parsed = SignedInboxResponse::parse(&raw, true, false).unwrap();
    assert!(parsed.verify(&verifying_key.to_bytes(), inbox_id, Some(&inbox)).is_err());
}

#[test]
fn accepts_valid_signature() {
    let signing_key = SigningKey::from_bytes(&[7u8; 32]);
    let inbox_id = b"inbox";
    let timestamp = 99u64;
    let inbox = InboxMessages { messages: b"ct".to_vec(), count: 2 };
    let mut signed = Vec::new();
    signed.extend_from_slice(&inbox.messages);
    signed.extend_from_slice(&inbox.count.to_le_bytes());
    signed.extend_from_slice(inbox_id);
    signed.extend_from_slice(&timestamp.to_le_bytes());
    let mut raw = listing_bytes(&inbox);
    raw.extend_from_slice(&timestamp.to_le_bytes());
    raw.extend_from_slice(&[0u8; 32]);
    raw.extend_from_slice(&signing_key.sign(&signed).to_bytes());

    let parsed = SignedInboxResponse::parse(&raw, true, false).unwrap();
    assert_eq!(parsed.proto_payload, listing_bytes(&inbox));
    let vk = signing_key.verifying_key().to_bytes();
    assert!(parsed.verify(&vk, inbox_id, Some(&inbox)).is_ok());
    assert!(matches!(parsed.verify(&vk, b"other", Some(&inbox)), Err(Error::Protocol(_))));
    assert!(matches!(parsed.verify(&vk, inbox_id, None), Err(Error::Protocol(_))));
}

#[test]
fn unsigned_response_verifies_and_sig_missing_fails() {
    let r = SignedInboxResponse { proto_payload: vec![1], claim_token: None, server_sig: None };
    assert!(r.verify(&[0u8; 32], b"x", None).is_ok());
    let r = SignedInboxResponse { proto_payload: vec![1], claim_token: Some(vec![0u8; 40]), server_sig: None };
    assert!(matches!(r.verify(&[0u8; 32], b"x", None), Err(Error::Protocol(_))));
}

#[test]
fn claim_token_timestamp_roundtrip() {
    let ts = 999u64;
    let mut token = Vec::from(ts.to_le_bytes());
    token.extend_from_slice(&[0u8; 32]);
    assert_eq!(claim_token_timestamp(&token).unwrap(), ts);
}

#[test]
fn claim_token_of_wrong_length_fails() {
    assert!(matches!(claim_token_timestamp(&[0u8; 39]), Err(Error::Protocol(_))));
    assert!(matches!(claim_token_timestamp(&[0u8; 41]), Err(Error::Protocol(_))));
}

#[test]
fn unrelated_onion_payload_is_not_inbox() {
    let mut circuit = Circuit::new(&[1u8; 32]);
    let raw = encoder::encode_relay_request(&mut circuit, b"hello").unwrap();
    assert!(SignedInboxResponse::parse(&raw, false, false).is_err());
}

#[test]
fn bootstrap_requires_relay_fields_when_capability_is_set() {
    let info = TransportBootstrapInfo {
        relay_addr: String::new(),
        relay_public_key: Vec::new(),
        inbox_verifying_key: SigningKey::from_bytes(&[1u8; 32]).verifying_key().to_bytes().to_vec(),
        capabilities: CAPABILITY_SIGNED_INBOX | CAPABILITY_RELAY,
    };

    assert!(TransportBootstrap::from_proto(info).is_err());
}

#[test]
fn bootstrap_with_relay() {
    let info = TransportBootstrapInfo {
        relay_addr: "  relay.example:443 ".to_string(),
        relay_public_key: vec![3u8; 32],
        inbox_verifying_key: SigningKey::from_bytes(&[1u8; 32]).verifying_key().to_bytes().to_vec(),
        capabilities: CAPABILITY_SIGNED_INBOX | CAPABILITY_RELAY,
    };
    let b = TransportBootstrap::from_proto(info).unwrap();
    let relay = b.relay.as_ref().unwrap();
    assert_eq!(relay.addr, "  relay.example:443 ");
    assert_eq!(relay.public_key, [3u8; 32]);
    assert!(b.supports_signed_inbox());
}

#[test]
fn bootstrap_without_relay_capability_ignores_relay_fields() {
    let info = TransportBootstrapInfo {
        relay_addr: String::new(),
        relay_public_key: Vec::new(),
        inbox_verifying_key: SigningKey::from_bytes(&[1u8; 32]).verifying_key().to_bytes().to_vec(),
        capabilities: 0,
    };
    let b = TransportBootstrap::from_proto(info).unwrap();
    assert!(b.relay.is_none());
    assert!(!b.supports_signed_inbox());
}

#[test]
fn bootstrap_rejects_bad_inbox_key() {
    let info = TransportBootstrapInfo {
        relay_addr: String::new(),
        relay_public_key: Vec::new(),
        inbox_verifying_key: vec![1u8; 31],
        capabilities: 0,
    };
    assert!(matches!(TransportBootstrap::from_proto(info), Err(Error::Protocol(_))));
}

#[test]
fn fetched_responses_settle() {
    let signing_key = SigningKey::from_bytes(&[5u8; 32]);
    let vk = signing_key.verifying_key().to_bytes();
    let inbox_id = b"inbox-1".to_vec();
    let timestamp = 77u64;
    let inbox = InboxMessages { messages: b"sealed".to_vec(), count: 1 };
    let mut signed = Vec::new();
    signed.extend_from_slice(&inbox.messages);
    signed.extend_from_slice(&inbox.count.to_le_bytes());
    signed.extend_from_slice(&inbox_id);
    signed.extend_from_slice(&timestamp.to_le_bytes());
    let listing = listing_bytes(&inbox);
    let mut token = Vec::from(timestamp.to_le_bytes());
    token.extend_from_slice(&[3u8; 32]);
    let mut raw = listing.clone();
    raw.extend_from_slice(&token);
    raw.extend_from_slice(&signing_key.sign(&signed).to_bytes());

    let real = FetchJob { inbox_id: inbox_id.clone(), is_dummy: false };
    let s = settle_fetched(&real, &raw, Some(&inbox), None, &vk).unwrap();
    assert_eq!(s.ack_token, Some(token.clone()));
    assert_eq!(s.delivered, Some((inbox_id.clone(), listing.clone())));

    let dummy = FetchJob { inbox_id: inbox_id.clone(), is_dummy: true };
    let s = settle_fetched(&dummy, &raw, Some(&inbox), None, &vk).unwrap();
    assert_eq!(s.ack_token, Some(token));
    assert_eq!(s.delivered, None);

    let other = FetchJob { inbox_id: b"inbox-2".to_vec(), is_dummy: false };
    assert!(matches!(settle_fetched(&other, &raw, Some(&inbox), None, &vk), Err(Error::Protocol(_))));

    let s = settle_fetched(&real, &listing, None, Some(&inbox), &vk).unwrap();
    assert_eq!(s.ack_token, None);
    assert_eq!(s.delivered, Some((inbox_id.clone(), listing.clone())));
    assert!(matches!(settle_fetched(&real, b"junk", None, None, &vk), Err(Error::Protocol(_))));
}
