use cypher::client::api::{
    accept_prekey_reply, check_found, pack_missing_indices, classify_json, JsonDispatch, PendingKind, file_meta_from_offer, is_json_frame, peer_id_from_response, json_bytes_field, open_chat_message, parse_missing_indices, split_inbox_messages,
    unpad_or_raw,
};
use cypher::client::crypto::KeyManager;
use cypher::client::onion::padding::pad;
use cypher::client::session::ClientSession;
use cypher::client::storage::LocalStorage;
use cypher::client::transfer::TransferManager;
use cypher::common::error::Error;
use cypher::common::types::{FileId, FileMeta, PeerId};
use cypher::crypto::identity::IdentityKeyPair;
use cypher::crypto::x3dh::SharedSecret;

fn meta(id: [u8; 16]) -> FileMeta {
    FileMeta { file_id: FileId(id), name: "f.txt".into(), size: 10, chunk_count: 1, hash: vec![1, 2], compressed: false }
}

#[test]
fn key_manager_sessions_roundtrip() {
    let mut alice = KeyManager::new(IdentityKeyPair::generate());
    let mut bob = KeyManager::new(IdentityKeyPair::generate());
    let ss = SharedSecret([5u8; 32]);
    let bob_spk_pub = bob.key_bundle().signed_prekey;
    alice.init_sender_session(b"bob", &ss, bob_spk_pub);
    bob.init_receiver_session(b"alice", &ss);
    assert!(alice.has_session(b"bob"));
    assert!(!alice.has_session(b"carol"));

    let (ct, rk, n) = alice.encrypt_for_peer(b"bob", b"hi bob").unwrap();
    assert_eq!(rk.len(), 32);
    assert_eq!(bob.decrypt_from_peer(b"alice", &ct, &rk, n).unwrap(), b"hi bob");
    let (ct, rk, n) = bob.encrypt_for_peer(b"alice", b"hi alice").unwrap();
    assert_eq!(alice.decrypt_from_peer(b"bob", &ct, &rk, n).unwrap(), b"hi alice");
}

#[test]
fn key_manager_errors() {
    let mut km = KeyManager::new(IdentityKeyPair::generate());
    assert!(matches!(km.encrypt_for_peer(b"nobody", b"x"), Err(Error::Session(_))));
    assert!(matches!(km.decrypt_from_peer(b"nobody", b"x", &[0u8; 32], 0), Err(Error::Session(_))));
    assert!(matches!(km.decrypt_from_peer(b"nobody", b"x", &[0u8; 31], 0), Err(Error::Crypto(_))));
    km.init_receiver_session(b"p", &SharedSecret([1u8; 32]));
    assert!(matches!(km.encrypt_for_peer(b"p", b"x"), Err(Error::Crypto(_))));
    assert!(km.key_bundle().verify().is_ok());
}

#[test]
fn mutual_sessions_talk() {
    let alice_id = IdentityKeyPair::generate();
    let bob_id = IdentityKeyPair::generate();
    let alice_pid = alice_id.peer_id();
    let bob_pid = bob_id.peer_id();
    let mut alice = KeyManager::new(alice_id);
    let mut bob = KeyManager::new(bob_id);
    let ab = alice.key_bundle();
    let bb = bob.key_bundle();
    let a_sender = alice.init_mutual_session(&alice_pid, &bob_pid, &bb.identity_dh_key, &bb.signed_prekey).unwrap();
    let b_sender = bob.init_mutual_session(&bob_pid, &alice_pid, &ab.identity_dh_key, &ab.signed_prekey).unwrap();
    assert_ne!(a_sender, b_sender);
    let (sender, sender_pid, receiver, receiver_pid) =
        if a_sender { (&mut alice, alice_pid, &mut bob, bob_pid) } else { (&mut bob, bob_pid, &mut alice, alice_pid) };
    let (ct, rk, n) = sender.encrypt_for_peer(receiver_pid.as_bytes(), b"first").unwrap();
    assert_eq!(receiver.decrypt_from_peer(sender_pid.as_bytes(), &ct, &rk, n).unwrap(), b"first");
    assert!(matches!(alice.init_mutual_session(&alice_pid, &bob_pid, &[0u8; 31], &[0u8; 32]), Err(Error::Crypto(_))));
}

#[test]
fn local_storage_tracks_transfers() {
    let mut s = LocalStorage::new();
    let id = FileId([1u8; 16]);
    s.add_pending_send(&id, "/tmp/a".into());
    s.add_pending_recv(&id, meta([1u8; 16]), "/tmp/b".into());
    let (m, dest) = s.get_pending_recv(&[1u8; 16]).unwrap();
    assert_eq!(m.file_id, id);
    assert_eq!(dest, "/tmp/b");
    assert!(s.get_pending_recv(&[2u8; 16]).is_none());
    s.add_pending_recv(&id, meta([1u8; 16]), "/tmp/c".into());
    assert_eq!(s.get_pending_recv(&[1u8; 16]).unwrap().1, "/tmp/c");
    assert_eq!(s.pending_recvs.len(), 1);
    s.remove_transfer(&[1u8; 16]);
    assert!(s.get_pending_recv(&[1u8; 16]).is_none());
    assert!(s.pending_sends.is_empty());
    s.remove_transfer(&[9u8; 16]);
}

#[test]
fn client_session_peer_id() {
    let s = ClientSession::new();
    assert_eq!(s.peer_id(), &s.identity.peer_id());
}

#[test]
fn inbox_batches_split() {
    let mut batch = Vec::new();
    batch.extend_from_slice(&3u32.to_le_bytes());
    batch.extend_from_slice(b"abc");
    batch.extend_from_slice(&0u32.to_le_bytes());
    batch.extend_from_slice(&5u32.to_le_bytes());
    batch.extend_from_slice(b"xy");
    assert_eq!(split_inbox_messages(&batch), vec![b"abc".to_vec(), Vec::new()]);
    assert!(split_inbox_messages(&[1, 0]).is_empty());
}

#[test]
fn unpadding_falls_back_to_raw() {
    assert_eq!(unpad_or_raw(pad(b"hey").unwrap()), b"hey");
    assert_eq!(unpad_or_raw(vec![9]), vec![9]);
}

#[test]
fn json_bytes_and_frames() {
    assert_eq!(json_bytes_field(Some(&vec![Some(1), Some(255)])).unwrap(), vec![1, 255]);
    assert!(matches!(json_bytes_field(Some(&vec![Some(256)])), Err(Error::Protocol(_))));
    assert!(matches!(json_bytes_field(Some(&vec![None])), Err(Error::Protocol(_))));
    assert!(matches!(json_bytes_field(None), Err(Error::Protocol(_))));
    assert!(is_json_frame(b"{\"a\":1}"));
    assert!(!is_json_frame(b"[1]"));
    assert!(!is_json_frame(b""));
    let _ = PeerId([0u8; 32]);
}

#[test]
fn missing_indices_parse() {
    let mut b = Vec::new();
    b.extend_from_slice(&7u32.to_le_bytes());
    b.extend_from_slice(&300u32.to_le_bytes());
    b.push(1);
    assert_eq!(parse_missing_indices(&b), vec![7, 300]);
    assert!(parse_missing_indices(&[1, 2, 3]).is_empty());
}

#[test]
fn offer_metadata() {
    let m = file_meta_from_offer(&[4u8; 16], "a.bin".into(), 99, 3, vec![1], 1);
    assert_eq!(m.file_id, FileId([4u8; 16]));
    assert_eq!((m.size, m.chunk_count, m.compressed), (99, 3, true));
    let m = file_meta_from_offer(&[4u8; 3], "b".into(), 1, 1, vec![], 0);
    assert!(!m.compressed);
    assert_eq!(m.name, "b");
}

#[test]
fn chat_messages_open() {
    let mut alice = KeyManager::new(IdentityKeyPair::generate());
    let mut bob = KeyManager::new(IdentityKeyPair::generate());
    let ss = SharedSecret([7u8; 32]);
    let alice_pid = [1u8; 32];
    let bob_pid = [2u8; 32];
    alice.init_sender_session(&bob_pid, &ss, bob.key_bundle().signed_prekey);
    bob.init_receiver_session(&alice_pid, &ss);
    let (ct, rk, n) = alice.encrypt_for_peer(&bob_pid, &pad(b"padded hi").unwrap()).unwrap();
    let (from, text) = open_chat_message(&mut bob, &alice_pid, &ct, &rk, n).unwrap();
    assert_eq!(from, PeerId(alice_pid));
    assert_eq!(text, b"padded hi");
    assert!(matches!(open_chat_message(&mut bob, &[1u8; 31], &ct, &rk, n), Err(Error::Protocol(_))));
    assert!(matches!(open_chat_message(&mut bob, &alice_pid, &ct, &rk[..31], n), Err(Error::Protocol(_))));
}

#[test]
fn signaling_verdicts() {
    assert!(check_found(Some(true), None, "x").is_ok());
    match check_found(Some(false), Some("gone"), "link not found") {
        Err(Error::Protocol(m)) => assert_eq!(m, "gone"),
        _ => panic!("expected a protocol error"),
    }
    match check_found(None, None, "link not found") {
        Err(Error::Protocol(m)) => assert_eq!(m, "link not found"),
        _ => panic!("expected a protocol error"),
    }
    let hex = "ab".repeat(32);
    assert_eq!(peer_id_from_response(Some(&hex)).unwrap(), PeerId([0xab; 32]));
    assert!(matches!(peer_id_from_response(None), Err(Error::Protocol(_))));
    assert!(matches!(peer_id_from_response(Some("abab")), Err(Error::Protocol(_))));
}

#[test]
fn transfer_compression_decision() {
    assert!(TransferManager::compression_decision(3, true));
    assert!(!TransferManager::compression_decision(3, false));
    assert!(!TransferManager::compression_decision(0, true));
    assert!(!TransferManager::compression_decision(0, false));
}

#[test]
fn json_frames_dispatch() {
    let hex = "cd".repeat(32);
    match classify_json(Some(true), Some(&hex), false, true, false, false) {
        JsonDispatch::PeerConnected(p) => assert_eq!(p, PeerId([0xcd; 32])),
        other => panic!("unexpected {:?}", other),
    }
    assert!(matches!(classify_json(Some(true), Some("cdcd"), false, true, false, false), JsonDispatch::Ignored));
    assert!(matches!(classify_json(Some(true), None, true, false, false, false), JsonDispatch::Ignored));
    assert!(matches!(
        classify_json(None, None, true, true, true, false),
        JsonDispatch::Reply(PendingKind::CreateLink)
    ));
    assert!(matches!(
        classify_json(Some(false), Some(&hex), false, true, false, false),
        JsonDispatch::Reply(PendingKind::JoinLink)
    ));
    assert!(matches!(
        classify_json(None, None, false, false, false, true),
        JsonDispatch::Reply(PendingKind::GetPrekeys)
    ));
    assert!(matches!(classify_json(None, None, false, false, false, false), JsonDispatch::Ignored));
}

#[test]
fn prekey_replies_set_up_sessions() {
    let alice_id = IdentityKeyPair::generate();
    let bob_id = IdentityKeyPair::generate();
    let alice_pid = alice_id.peer_id();
    let bob_pid = bob_id.peer_id();
    let mut alice = KeyManager::new(alice_id);
    let mut bob = KeyManager::new(bob_id);
    let nums = |b: &[u8]| b.iter().map(|x| Some(*x as u64)).collect::<Vec<Option<u64>>>();
    let ab = alice.key_bundle();
    let bb = bob.key_bundle();
    let (b_ik, b_spk) = (nums(&bb.identity_dh_key), nums(&bb.signed_prekey));
    let (a_ik, a_spk) = (nums(&ab.identity_dh_key), nums(&ab.signed_prekey));

    match accept_prekey_reply(&mut alice, &alice_pid, &bob_pid, Some(false), None, Some(&b_ik), Some(&b_spk), None) {
        Err(Error::Protocol(m)) => assert_eq!(m, "prekeys not found"),
        _ => panic!("expected a protocol error"),
    }
    assert!(!alice.has_session(bob_pid.as_bytes()));
    let bad = vec![Some(300u64)];
    assert!(matches!(
        accept_prekey_reply(&mut alice, &alice_pid, &bob_pid, Some(true), None, Some(&bad), Some(&b_spk), None),
        Err(Error::Protocol(_))
    ));
    let short = nums(&[1u8; 31]);
    assert!(matches!(
        accept_prekey_reply(&mut alice, &alice_pid, &bob_pid, Some(true), None, Some(&short), Some(&b_spk), None),
        Err(Error::Crypto(_))
    ));
    assert!(!alice.has_session(bob_pid.as_bytes()));

    let (a_sender, inbox) =
        accept_prekey_reply(&mut alice, &alice_pid, &bob_pid, Some(true), None, Some(&b_ik), Some(&b_spk), Some("0a0b"))
            .unwrap();
    assert_eq!(inbox, Some(vec![0x0a, 0x0b]));
    let (b_sender, inbox) =
        accept_prekey_reply(&mut bob, &bob_pid, &alice_pid, Some(true), None, Some(&a_ik), Some(&a_spk), Some("zz"))
            .unwrap();
    assert_eq!(inbox, None);
    assert_ne!(a_sender, b_sender);
    assert_eq!(a_sender, alice_pid.as_bytes() < bob_pid.as_bytes());
    let (sender, sender_pid, receiver, receiver_pid) =
        if a_sender { (&mut alice, alice_pid, &mut bob, bob_pid) } else { (&mut bob, bob_pid, &mut alice, alice_pid) };
    let (ct, rk, n) = sender.encrypt_for_peer(receiver_pid.as_bytes(), b"hello").unwrap();
    assert_eq!(receiver.decrypt_from_peer(sender_pid.as_bytes(), &ct, &rk, n).unwrap(), b"hello");
}

#[test]
fn missing_indices_pack_roundtrip() {
    let idx = vec![0u32, 5, 0x0102_0304, u32::MAX];
    let packed = pack_missing_indices(&idx);
    assert_eq!(packed.len(), 16);
    assert_eq!(&packed[8..12], &[4, 3, 2, 1]);
    assert_eq!(parse_missing_indices(&packed), idx);
    assert!(pack_missing_indices(&[]).is_empty());
}
