use cypher::client::persistence::encryption::{
    compress_and_encrypt, decrypt, decrypt_and_decompress, encrypt, maybe_compress, maybe_decompress,
};
use cypher::client::persistence::{decode_ratchet_blob, encode_ratchet_blob, open_stored_rows, Direction, StoredRow};
use cypher::common::error::Error;

#[test]
fn record_roundtrip_short_and_long() {
    let key = [11u8; 32];
    let short = b"short message".to_vec();
    let (ct, nonce, compressed) = compress_and_encrypt(&key, &short).unwrap();
    assert!(!compressed);
    assert_eq!(decrypt_and_decompress(&key, &ct, &nonce, compressed).unwrap(), short);

    let long = vec![b'a'; 1000];
    let (ct, nonce, compressed) = compress_and_encrypt(&key, &long).unwrap();
    assert!(compressed);
    assert!(ct.len() < long.len());
    assert_eq!(decrypt_and_decompress(&key, &ct, &nonce, compressed).unwrap(), long);
}

#[test]
fn compression_threshold_is_exclusive() {
    let (d, c) = maybe_compress(&[1u8; 64]).unwrap();
    assert!(!c);
    assert_eq!(d, vec![1u8; 64]);
    let (_, c) = maybe_compress(&[1u8; 65]).unwrap();
    assert!(c);
    assert_eq!(maybe_decompress(vec![1, 2, 3], false).unwrap(), vec![1, 2, 3]);
    assert!(matches!(maybe_decompress(vec![1, 2, 3], true), Err(Error::Crypto(_))));
}

#[test]
fn encrypt_uses_fresh_nonces() {
    let key = [1u8; 32];
    let (c1, n1) = encrypt(&key, b"same").unwrap();
    let (c2, n2) = encrypt(&key, b"same").unwrap();
    assert_ne!(n1, n2);
    assert_ne!(c1, c2);
    assert_eq!(decrypt(&key, &c1, &n1).unwrap(), b"same");
    assert!(matches!(decrypt(&[2u8; 32], &c1, &n1), Err(Error::Crypto(_))));
}

#[test]
fn ratchet_blob_roundtrip() {
    let small = vec![5u8; 100];
    let blob = encode_ratchet_blob(&small).unwrap();
    assert_eq!(blob[0], 0x00);
    assert_eq!(&blob[1..], &small[..]);
    assert_eq!(decode_ratchet_blob(&blob).unwrap(), small);

    let big = vec![6u8; 4096];
    let blob = encode_ratchet_blob(&big).unwrap();
    assert_eq!(blob[0], 0x01);
    assert_eq!(decode_ratchet_blob(&blob).unwrap(), big);
}

#[test]
fn ratchet_blob_legacy_and_errors() {
    let legacy = zstd::encode_all(&b"legacy state"[..], 3).unwrap();
    assert_eq!(decode_ratchet_blob(&legacy).unwrap(), b"legacy state");
    assert!(matches!(decode_ratchet_blob(&[]), Err(Error::Crypto(_))));
    assert!(matches!(decode_ratchet_blob(&[0x01, 0xFF]), Err(Error::Crypto(_))));
}

#[test]
fn direction_codes() {
    assert_eq!(Direction::Sent.code(), 0);
    assert_eq!(Direction::Received.code(), 1);
    assert_eq!(Direction::from_code(0), Direction::Sent);
    assert_eq!(Direction::from_code(1), Direction::Received);
    assert_eq!(Direction::from_code(7), Direction::Received);
}

#[test]
fn stored_rows_open_in_order() {
    let key = [9u8; 32];
    let long = vec![b'z'; 200];
    let (ct1, n1, c1) = compress_and_encrypt(&key, b"hi").unwrap();
    let (ct2, n2, c2) = compress_and_encrypt(&key, &long).unwrap();
    assert!(!c1 && c2);
    let rows = vec![
        StoredRow { id: 7, peer_id: vec![1; 32], direction: 0, ciphertext: ct1, nonce: n1.to_vec(), compressed: c1, timestamp: 10 },
        StoredRow { id: 5, peer_id: vec![1; 32], direction: 4, ciphertext: ct2.clone(), nonce: n2.to_vec(), compressed: c2, timestamp: 11 },
    ];
    let msgs = open_stored_rows(&key, rows).unwrap();
    assert_eq!(msgs.len(), 2);
    assert_eq!(msgs[0].id, 7);
    assert_eq!(msgs[0].plaintext, b"hi");
    assert_eq!(msgs[0].direction, Direction::Sent);
    assert_eq!(msgs[1].id, 5);
    assert_eq!(msgs[1].plaintext, long);
    assert_eq!(msgs[1].direction, Direction::Received);
    assert_eq!(msgs[1].timestamp, 11);

    let bad = vec![StoredRow { id: 1, peer_id: vec![], direction: 0, ciphertext: ct2, nonce: n2.to_vec(), compressed: c2, timestamp: 0 }];
    assert!(matches!(open_stored_rows(&[8u8; 32], bad), Err(Error::Crypto(_))));
}
