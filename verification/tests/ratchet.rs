use cypher::common::error::Error;
use cypher::crypto::identity::SignedPreKey;
use cypher::crypto::ratchet::{dh_ratchet, kdf_chain, RatchetState, MAX_SKIP};
use cypher::crypto::x3dh::SharedSecret;

fn pair(secret: [u8; 32]) -> (RatchetState, RatchetState) {
    let shared_secret = SharedSecret(secret);
    let bob = SignedPreKey::generate();
    let alice = RatchetState::init_sender(&shared_secret, &bob.public_key());
    let bob = RatchetState::init_receiver(&shared_secret, bob.secret);
    (alice, bob)
}

#[test]
fn sender_receiver_roundtrip() {
    let (mut alice, mut bob) = pair([99u8; 32]);

    let (ct, rk, mn) = alice.encrypt(b"hello bob").unwrap();
    let pt = bob.decrypt(&ct, &rk, mn).unwrap();
    assert_eq!(pt, b"hello bob");

    let (ct2, rk2, mn2) = alice.encrypt(b"second message").unwrap();
    let pt2 = bob.decrypt(&ct2, &rk2, mn2).unwrap();
    assert_eq!(pt2, b"second message");

    let (ct3, rk3, mn3) = bob.encrypt(b"hello alice").unwrap();
    let pt3 = alice.decrypt(&ct3, &rk3, mn3).unwrap();
    assert_eq!(pt3, b"hello alice");

    let (ct4, rk4, mn4) = alice.encrypt(b"back to you").unwrap();
    let pt4 = bob.decrypt(&ct4, &rk4, mn4).unwrap();
    assert_eq!(pt4, b"back to you");
}

#[test]
fn out_of_order_messages() {
    let (mut alice, mut bob) = pair([42u8; 32]);

    let (ct0, rk0, mn0) = alice.encrypt(b"msg 0").unwrap();
    let (ct1, rk1, mn1) = alice.encrypt(b"msg 1").unwrap();
    let (ct2, rk2, mn2) = alice.encrypt(b"msg 2").unwrap();

    let pt2 = bob.decrypt(&ct2, &rk2, mn2).unwrap();
    assert_eq!(pt2, b"msg 2");

    let pt0 = bob.decrypt(&ct0, &rk0, mn0).unwrap();
    assert_eq!(pt0, b"msg 0");

    let pt1 = bob.decrypt(&ct1, &rk1, mn1).unwrap();
    assert_eq!(pt1, b"msg 1");
}

#[test]
fn kdf_chain_deterministic() {
    let ck = [1u8; 32];
    let (ck1, mk1) = kdf_chain(&ck);
    let (ck2, mk2) = kdf_chain(&ck);
    assert_eq!(ck1, ck2);
    assert_eq!(mk1, mk2);
}

#[test]
fn kdf_chain_keys_differ() {
    let (ck, mk) = kdf_chain(&[1u8; 32]);
    assert_ne!(ck, mk);
    assert_ne!(ck, [1u8; 32]);
    let (r1, c1) = dh_ratchet(&[1u8; 32], &[2u8; 32]);
    assert_ne!(r1, c1);
}

#[test]
fn receiver_cannot_encrypt_before_first_message() {
    let (_, mut bob) = pair([1u8; 32]);
    assert!(matches!(bob.encrypt(b"x"), Err(Error::Crypto(_))));
    assert_eq!(bob.send_count, 0);
}

#[test]
fn encrypt_advances_counters() {
    let (mut alice, _) = pair([3u8; 32]);
    let (_, rk, n0) = alice.encrypt(b"a").unwrap();
    let (_, _, n1) = alice.encrypt(b"b").unwrap();
    assert_eq!((n0, n1), (0, 1));
    assert_eq!(rk, alice.send_ratchet_key);
    assert_eq!(alice.send_count, 2);
}

#[test]
fn too_many_skipped_messages_fail() {
    let (mut alice, mut bob) = pair([4u8; 32]);
    let (ct, rk, _) = alice.encrypt(b"x").unwrap();
    assert!(matches!(bob.decrypt(&ct, &rk, MAX_SKIP + 1), Err(Error::Crypto(_))));
}

#[test]
fn replayed_message_fails() {
    let (mut alice, mut bob) = pair([5u8; 32]);
    let (ct, rk, n) = alice.encrypt(b"once").unwrap();
    assert_eq!(bob.decrypt(&ct, &rk, n).unwrap(), b"once");
    assert!(bob.decrypt(&ct, &rk, n).is_err());
}

#[test]
fn skipped_keys_are_used_once() {
    let (mut alice, mut bob) = pair([6u8; 32]);
    let (ct0, rk0, n0) = alice.encrypt(b"zero").unwrap();
    let (ct1, rk1, n1) = alice.encrypt(b"one").unwrap();
    assert_eq!(bob.decrypt(&ct1, &rk1, n1).unwrap(), b"one");
    assert_eq!(bob.skipped_keys.len(), 1);
    assert_eq!(bob.decrypt(&ct0, &rk0, n0).unwrap(), b"zero");
    assert_eq!(bob.skipped_keys.len(), 0);
}

#[test]
fn tampered_ciphertext_is_rejected() {
    let (mut alice, mut bob) = pair([8u8; 32]);
    let (mut ct, rk, n) = alice.encrypt(b"hi").unwrap();
    ct[0] ^= 1;
    assert!(matches!(bob.decrypt(&ct, &rk, n), Err(Error::Crypto(_))));
}
