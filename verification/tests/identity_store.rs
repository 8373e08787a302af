use cypher::client::identity_store::{build_plaintext, parse_plaintext, IdentityStore};
use cypher::common::error::Error;
use cypher::crypto::identity::IdentitySeed;

/// The identity file is held in memory here; reading and writing it is the
/// caller's part.
fn setup() -> (Option<Vec<u8>>, IdentityStore) {
    (None, IdentityStore::new("/tmp/cypher-test-data"))
}

#[test]
fn create_and_unlock() {
    let (mut file, store) = setup();
    assert!(file.is_none());

    let (seed, bytes) = store.create("alice", "mypin123").unwrap();
    file = Some(bytes);
    assert!(file.is_some());

    let (restored, nickname) = store.unlock(file.as_ref().unwrap(), "mypin123").unwrap();
    assert_eq!(seed.as_bytes(), restored.as_bytes());
    assert_eq!(nickname, "alice");
    assert_eq!(seed.derive_identity().peer_id().as_bytes(), restored.derive_identity().peer_id().as_bytes());
}

#[test]
fn wrong_passphrase_fails() {
    let (_, store) = setup();
    let (_, file) = store.create("bob", "correct_pin").unwrap();
    assert!(store.unlock(&file, "wrong_pin").is_err());
}

#[test]
fn mnemonic_export_import() {
    let (_, store) = setup();
    let (seed, file) = store.create("charlie", "pin456").unwrap();
    let mnemonic = store.export_mnemonic(&file, "pin456").unwrap();

    let store2 = IdentityStore::new("/tmp/cypher-test-data-2");
    let (imported, _file2) = store2.import_mnemonic(&mnemonic, "charlie", "newpin").unwrap();

    assert_eq!(seed.as_bytes(), imported.as_bytes());
}

#[test]
fn unicode_nickname() {
    let (_, store) = setup();
    let (_, file) = store.create("Алиса 🔐", "pin").unwrap();
    let (_, nickname) = store.unlock(&file, "pin").unwrap();
    assert_eq!(nickname, "Алиса 🔐");
}

#[test]
fn identity_path_joins_file_name() {
    assert_eq!(IdentityStore::new("/data").path, "/data/identity.enc");
    assert_eq!(IdentityStore::new("/data/").path, "/data/identity.enc");
    assert_eq!(IdentityStore::new("").path, "identity.enc");
}

#[test]
fn identity_file_layout() {
    let (_, store) = setup();
    let (_, file) = store.create("dave", "pin").unwrap();
    // salt(16) + nonce(12) + seed(32) + len(4) + "dave"(4) + tag(16)
    assert_eq!(file.len(), 16 + 12 + 32 + 4 + 4 + 16);
}

#[test]
fn short_file_is_crypto_error() {
    let (_, store) = setup();
    assert!(matches!(store.unlock(&[0u8; 63], "pin"), Err(Error::Crypto(_))));
}

#[test]
fn plaintext_roundtrip_and_errors() {
    let seed = IdentitySeed([3u8; 32]);
    let p = build_plaintext(&seed, "eve");
    assert_eq!(&p[..32], &[3u8; 32]);
    assert_eq!(&p[32..36], &3u32.to_le_bytes());
    assert_eq!(&p[36..], b"eve");
    let (s, n) = parse_plaintext(&p).unwrap();
    assert_eq!(s.0, [3u8; 32]);
    assert_eq!(n, "eve");
    assert!(matches!(parse_plaintext(&p[..35]), Err(Error::Crypto(_))));
    assert!(matches!(parse_plaintext(&p[..38]), Err(Error::Crypto(_))));
    let mut bad = p.clone();
    bad[36] = 0xFF;
    assert!(matches!(parse_plaintext(&bad), Err(Error::Crypto(_))));
}

#[test]
fn import_invalid_mnemonic_fails() {
    let (_, store) = setup();
    assert!(matches!(store.import_mnemonic("nope", "x", "pin"), Err(Error::Crypto(_))));
}
