use cypher::crypto::identity::{EphemeralKeyPair, IdentityKeyPair, SignedPreKey};
use cypher::crypto::x3dh::{x3dh_initiator, x3dh_mutual, x3dh_responder};

#[test]
fn x3dh_initiator_responder_agree() {
    let alice_ik = IdentityKeyPair::generate();
    let alice_ek = EphemeralKeyPair::generate();

    let bob_ik = IdentityKeyPair::generate();
    let bob_spk = SignedPreKey::generate();

    let alice_secret = x3dh_initiator(&alice_ik, &alice_ek, &bob_ik.dh_public_key(), &bob_spk.public_key());
    let bob_secret = x3dh_responder(&bob_ik, &bob_spk, &alice_ik.dh_public_key(), &alice_ek.public_key());

    assert_eq!(alice_secret.0, bob_secret.0);
}

#[test]
fn x3dh_mutual_symmetric() {
    let alice_ik = IdentityKeyPair::generate();
    let alice_spk = SignedPreKey::generate();

    let bob_ik = IdentityKeyPair::generate();
    let bob_spk = SignedPreKey::generate();

    let alice_secret = x3dh_mutual(&alice_ik, &alice_spk.secret, &bob_ik.dh_public_key(), &bob_spk.public_key());
    let bob_secret = x3dh_mutual(&bob_ik, &bob_spk.secret, &alice_ik.dh_public_key(), &alice_spk.public_key());

    assert_eq!(alice_secret.0, bob_secret.0);
}

#[test]
fn x3dh_secret_depends_on_peer_keys() {
    let alice_ik = IdentityKeyPair::generate();
    let alice_ek = EphemeralKeyPair::generate();
    let bob_ik = IdentityKeyPair::generate();
    let bob_spk = SignedPreKey::generate();
    let other_spk = SignedPreKey::generate();
    let s1 = x3dh_initiator(&alice_ik, &alice_ek, &bob_ik.dh_public_key(), &bob_spk.public_key());
    let s2 = x3dh_initiator(&alice_ik, &alice_ek, &bob_ik.dh_public_key(), &other_spk.public_key());
    assert_ne!(s1.0, s2.0);
    assert_eq!(s1.as_bytes(), &s1.0);
}
