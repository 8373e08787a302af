use cypher::client::api::{accept_prekey_reply, JsonDispatch, PendingKind};
use cypher::client::crypto::KeyManager;
use cypher::client::signaling_json::{dispatch_json_payload, read_signaling_json, JsonFrameError};
use cypher::common::types::PeerId;
use cypher::crypto::identity::IdentityKeyPair;

#[test]
fn json_frames_dispatch_from_bytes() {
    let hex = "cd".repeat(32);
    let joined = format!("{{\"peer_joined\":true,\"peer_id\":\"{hex}\"}}");
    match dispatch_json_payload(joined.as_bytes()) {
        Ok(JsonDispatch::PeerConnected(p)) => assert_eq!(p, PeerId([0xcd; 32])),
        other => panic!("unexpected {:?}", other),
    }
    assert!(matches!(
        dispatch_json_payload(br#"{"link_id":"abc","peer_id":"x"}"#),
        Ok(JsonDispatch::Reply(PendingKind::CreateLink))
    ));
    assert!(matches!(dispatch_json_payload(br#"{"peer_id":null}"#), Ok(JsonDispatch::Reply(PendingKind::JoinLink))));
    assert!(matches!(
        dispatch_json_payload(br#"{"signed_prekey":[1]}"#),
        Ok(JsonDispatch::Reply(PendingKind::GetPrekeys))
    ));
    assert!(matches!(dispatch_json_payload(br#"{"other":1}"#), Ok(JsonDispatch::Ignored)));
    assert!(matches!(dispatch_json_payload(b"[1,2]"), Ok(JsonDispatch::Ignored)));
    assert!(matches!(dispatch_json_payload(b"{not json"), Err(JsonFrameError::Malformed)));
    assert!(matches!(
        dispatch_json_payload("{\"peer_joined\":true,\"peer_id\":\"a\u{e9}b\"}".as_bytes()),
        Err(JsonFrameError::UnsliceablePeerId)
    ));
    assert!(matches!(
        dispatch_json_payload(br#"{"peer_joined":true,"peer_id":"abcd"}"#),
        Ok(JsonDispatch::Ignored)
    ));
}

#[test]
fn prekey_reply_read_from_json() {
    let alice_id = IdentityKeyPair::generate();
    let bob_id = IdentityKeyPair::generate();
    let (alice_pid, bob_pid) = (alice_id.peer_id(), bob_id.peer_id());
    let mut alice = KeyManager::new(alice_id);
    let bob = KeyManager::new(bob_id);
    let bb = bob.key_bundle();
    let payload = format!(
        "{{\"found\":true,\"identity_key\":{:?},\"signed_prekey\":{:?},\"inbox_id\":\"0a0b\"}}",
        bb.identity_dh_key.to_vec(),
        bb.signed_prekey.to_vec()
    );
    let json = read_signaling_json(payload.as_bytes()).unwrap();
    assert_eq!(json.found, Some(true));
    assert_eq!(json.inbox_id.as_deref(), Some("0a0b"));
    assert!(json.has_identity_key && json.has_signed_prekey && !json.has_link_id);
    let (_, inbox) = accept_prekey_reply(
        &mut alice,
        &alice_pid,
        &bob_pid,
        json.found,
        json.error.as_deref(),
        json.identity_key.as_ref(),
        json.signed_prekey.as_ref(),
        json.inbox_id.as_deref(),
    )
    .unwrap();
    assert_eq!(inbox, Some(vec![0x0a, 0x0b]));
    assert!(alice.has_session(bob_pid.as_bytes()));

    let missing = read_signaling_json(br#"{"found":false,"error":"gone","identity_key":[300]}"#).unwrap();
    assert_eq!(missing.found, Some(false));
    assert_eq!(missing.error.as_deref(), Some("gone"));
    assert_eq!(missing.identity_key, Some(vec![Some(300)]));
    assert!(read_signaling_json(b"nope").is_none());
}
