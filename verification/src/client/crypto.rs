//! Session keys of one local identity: the signed pre-key it publishes and
//! a Double Ratchet state per peer.

use vstd::prelude::*;
use crate::common::assoc::{keys_unique, has_key, assoc_map, lemma_assoc_index, lemma_assoc_push, lemma_assoc_update, lemma_assoc_remove, lemma_assoc_absent};
use crate::common::byte_util::{bytes_eq, bytes_le, lex_le, to_array};
use crate::common::error::{Error, Result, crypto_error};
use crate::common::types::PeerId;
use crate::crypto::aead::{spec_aead_seal, spec_aead_open};
use crate::crypto::identity::{IdentityKeyPair, KeyBundle, SignedPreKey};
use crate::crypto::primitives::{spec_ed25519_public, spec_ed25519_sign, spec_x25519_public, AES_GCM_P_MAX};
use crate::crypto::ratchet::{
    RatchetState, RatchetView, spec_after_encrypt, spec_encrypt_key, spec_u32_be, spec_decrypt_state,
    spec_decrypt_overflows, spec_decrypt_key, spec_receiver_view, spec_dh_ratchet,
};
use crate::crypto::x3dh::{SharedSecret, x3dh_mutual, spec_x3dh_mutual};

verus! {

/// The ratchet state kept for one peer.
pub struct PeerSession {
    pub peer_id: Vec<u8>,
    pub state: RatchetState,
}

/// The peer id of a session entry, as a function.
pub open spec fn session_key_fn() -> spec_fn(PeerSession) -> Seq<u8> {
    |e: PeerSession| e.peer_id@
}

/// The ratchet view of a session entry, as a function.
pub open spec fn session_val_fn() -> spec_fn(PeerSession) -> RatchetView {
    |e: PeerSession| e.state@
}

/// Manages the session keys of a single local identity. Sessions are kept
/// one per peer id.
pub struct KeyManager {
    pub identity: IdentityKeyPair,
    /// The signed pre-key published in our key bundle.
    pub spk: SignedPreKey,
    /// Per-peer Double Ratchet states.
    pub peer_sessions: Vec<PeerSession>,
}

impl KeyManager {
    /// Sessions are unique per peer and each ratchet state is well formed.
    pub open spec fn wf(&self) -> bool {
        &&& keys_unique(self.peer_sessions@, session_key_fn())
        &&& forall|i: int| 0 <= i < self.peer_sessions@.len() ==> (#[trigger] self.peer_sessions@[i]).state.wf()
    }

    /// The sessions, by peer id.
    pub open spec fn sessions(&self) -> Map<Seq<u8>, RatchetView> {
        assoc_map(self.peer_sessions@, session_key_fn(), session_val_fn())
    }

    /// A key manager for an identity, with a fresh signed pre-key and no
    /// sessions.
    pub fn new(identity: IdentityKeyPair) -> (km: Self)
        ensures
            km.wf(),
            km.identity == identity,
            km.sessions() == Map::<Seq<u8>, RatchetView>::empty(),
    {
        let km = KeyManager { identity, spk: SignedPreKey::generate(), peer_sessions: Vec::new() };
        assert(km.sessions() =~= Map::<Seq<u8>, RatchetView>::empty());
        km
    }

    pub fn identity(&self) -> (id: &IdentityKeyPair)
        ensures
            *id == self.identity,
    {
        &self.identity
    }

    /// The key bundle peers use to run X3DH with us.
    pub fn key_bundle(&self) -> (b: KeyBundle)
        ensures
            b.identity_key@ == spec_ed25519_public(self.identity.signing_key@),
            b.identity_dh_key@ == spec_x25519_public(self.identity.dh_secret@),
            b.signed_prekey@ == spec_x25519_public(self.spk.secret@),
            b.prekey_signature@ == spec_ed25519_sign(self.identity.signing_key@, b.signed_prekey@),
            b.wf(),
    {
        KeyBundle::new(&self.identity, &self.spk)
    }

    /// The secret of our signed pre-key.
    pub fn spk_secret(&self) -> (s: [u8; 32])
        ensures
            s == self.spk.secret,
    {
        self.spk.secret
    }

    fn find_session(&self, peer_id: &[u8]) -> (r: Option<usize>)
        ensures
            r matches Some(i) ==> i < self.peer_sessions@.len() && self.peer_sessions@[i as int].peer_id@ == peer_id@,
            r is None ==> !self.sessions().contains_key(peer_id@),
    {
        let mut i: usize = 0;
        while i < self.peer_sessions.len()
            invariant
                0 <= i <= self.peer_sessions@.len(),
                forall|j: int| 0 <= j < i ==> self.peer_sessions@[j].peer_id@ != peer_id@,
            decreases self.peer_sessions@.len() - i,
        {
            if bytes_eq(self.peer_sessions[i].peer_id.as_slice(), peer_id) {
                return Some(i);
            }
            i = i + 1;
        }
        proof {
            lemma_assoc_absent(self.peer_sessions@, session_key_fn(), session_val_fn(), peer_id@);
        }
        None
    }

    /// Stores a session for a peer, replacing any earlier one.
    fn put_session(&mut self, peer_id: &[u8], state: RatchetState)
        requires
            old(self).wf(),
            state.wf(),
        ensures
            final(self).wf(),
            final(self).sessions() == old(self).sessions().insert(peer_id@, state@),
            final(self).identity == old(self).identity,
            final(self).spk == old(self).spk,
    {
        let e = PeerSession { peer_id: vstd::slice::slice_to_vec(peer_id), state };
        match self.find_session(peer_id) {
            Some(i) => {
                proof {
                    lemma_assoc_update(self.peer_sessions@, session_key_fn(), session_val_fn(), i as int, e);
                }
                self.peer_sessions.set(i, e);
            },
            None => {
                proof {
                    if has_key(self.peer_sessions@, session_key_fn(), peer_id@) {
                        let j = choose|j: int| 0 <= j < self.peer_sessions@.len() && self.peer_sessions@[j].peer_id@ == peer_id@;
                        lemma_assoc_index(self.peer_sessions@, session_key_fn(), session_val_fn(), j);
                    }
                    lemma_assoc_push(self.peer_sessions@, session_key_fn(), session_val_fn(), e);
                }
                self.peer_sessions.push(e);
            },
        }
    }

    /// Takes the session of a peer out of the manager.
    fn take_session(&mut self, peer_id: &[u8]) -> (r: Option<RatchetState>)
        requires
            old(self).wf(),
        ensures
            final(self).wf(),
            r is Some <==> old(self).sessions().contains_key(peer_id@),
            r matches Some(s) ==> s@ == old(self).sessions()[peer_id@] && s.wf()
                && final(self).sessions() == old(self).sessions().remove(peer_id@),
            r is None ==> final(self).sessions() == old(self).sessions(),
            final(self).identity == old(self).identity,
            final(self).spk == old(self).spk,
    {
        match self.find_session(peer_id) {
            Some(i) => {
                proof {
                    lemma_assoc_index(self.peer_sessions@, session_key_fn(), session_val_fn(), i as int);
                    lemma_assoc_remove(self.peer_sessions@, session_key_fn(), session_val_fn(), i as int);
                }
                let e = self.peer_sessions.remove(i);
                proof {
                    assert forall|j: int| 0 <= j < self.peer_sessions@.len() implies (#[trigger] self.peer_sessions@[j]).state.wf() by {
                        let j1 = if j < i { j } else { j + 1 };
                        assert(self.peer_sessions@[j] == old(self).peer_sessions@[j1]);
                    }
                }
                Some(e.state)
            },
            None => None,
        }
    }

    /// Whether a session with the peer exists.
    pub fn has_session(&self, peer_id: &[u8]) -> (r: bool)
        ensures
            r == self.sessions().contains_key(peer_id@),
    {
        match self.find_session(peer_id) {
            Some(i) => {
                proof {
                    assert(session_key_fn()(self.peer_sessions@[i as int]) == peer_id@);
                    assert(has_key(self.peer_sessions@, session_key_fn(), peer_id@));
                }
                true
            },
            None => false,
        }
    }

    /// How mutual session set-up with a peer leaves the sessions, given
    /// whether we became the sender: the peer has a session; we are the
    /// sender exactly when our id sorts bytewise before theirs; a receiver
    /// session is the one started from the shared secret and our signed
    /// pre-key; a sender session has taken its first ratchet step towards the
    /// peer's signed pre-key with a fresh key of its own, and the sessions
    /// with other peers are unchanged.
    pub open spec fn spec_mutual_session(
        old_km: KeyManager,
        new_km: KeyManager,
        our_peer_id: Seq<u8>,
        peer_id: Seq<u8>,
        their_ik_dh: Seq<u8>,
        their_spk: Seq<u8>,
        is_sender: bool,
    ) -> bool {
        let ss = spec_x3dh_mutual(old_km.identity.dh_secret@, old_km.spk.secret@, their_ik_dh, their_spk);
        &&& new_km.sessions().contains_key(peer_id)
        &&& (is_sender <==> (lex_le(our_peer_id, peer_id) && our_peer_id != peer_id))
        &&& !is_sender ==> new_km.sessions() == old_km.sessions().insert(
            peer_id,
            spec_receiver_view(ss, old_km.spk.secret@),
        )
        &&& is_sender ==> new_km.sessions().dom() == old_km.sessions().dom().insert(peer_id)
        &&& is_sender ==> forall|p: Seq<u8>|
            p != peer_id && old_km.sessions().contains_key(p) ==> new_km.sessions()[p] == old_km.sessions()[p]
        &&& is_sender ==> ({
            let s = new_km.sessions()[peer_id];
            &&& s.send_ratchet_key == spec_x25519_public(s.send_ratchet_secret)
            &&& s.send_chain_key is Some
            &&& (s.root_key, s.send_chain_key.unwrap()) == spec_dh_ratchet(
                ss,
                crate::crypto::primitives::spec_x25519_dh(s.send_ratchet_secret, their_spk),
            )
            &&& s.recv_ratchet_key == Some(their_spk)
            &&& s.send_count == 0
        })
    }

    /// Mutual session set-up with a peer from its published identity DH key
    /// and signed pre-key: symmetric X3DH, then the peer with the smaller id
    /// (bytewise) becomes the sender, whose first ratchet step targets the
    /// other's signed pre-key; the other becomes the receiver, starting from
    /// its own signed pre-key. Returns whether we are the sender. Keys that
    /// are not 32 bytes are crypto errors.
    pub fn init_mutual_session(&mut self, our_peer_id: &PeerId, peer_id: &PeerId, their_ik_dh: &[u8], their_spk: &[u8]) -> (r: Result<bool>)
        requires
            old(self).wf(),
        ensures
            final(self).wf(),
            final(self).identity == old(self).identity,
            final(self).spk == old(self).spk,
            r is Ok <==> their_ik_dh@.len() == 32 && their_spk@.len() == 32,
            r is Err ==> r->Err_0 is Crypto && final(self).sessions() == old(self).sessions(),
            r is Ok ==> Self::spec_mutual_session(*old(self), *final(self), our_peer_id.0@, peer_id.0@, their_ik_dh@, their_spk@, r->Ok_0),
    {
        if their_ik_dh.len() != 32 {
            return Err(crypto_error("identity_key must be 32 bytes"));
        }
        if their_spk.len() != 32 {
            return Err(crypto_error("signed_prekey must be 32 bytes"));
        }
        let ik_dh: [u8; 32] = to_array(their_ik_dh);
        let spk: [u8; 32] = to_array(their_spk);
        let spk_secret = self.spk_secret();
        let shared_secret = x3dh_mutual(&self.identity, &spk_secret, &ik_dh, &spk);
        let ours = our_peer_id.as_bytes();
        let theirs = peer_id.as_bytes();
        let is_sender = bytes_le(ours.as_slice(), theirs.as_slice()) && !bytes_eq(ours.as_slice(), theirs.as_slice());
        if is_sender {
            self.init_sender_session(peer_id.as_bytes().as_slice(), &shared_secret, spk);
        } else {
            self.init_receiver_session(peer_id.as_bytes().as_slice(), &shared_secret);
        }
        Ok(is_sender)
    }

    /// Starts a sender-side session with a peer (after X3DH as initiator):
    /// the ratchet's first step uses the peer's ratchet public key.
    pub fn init_sender_session(&mut self, peer_id: &[u8], shared_secret: &SharedSecret, peer_ratchet_pub: [u8; 32])
        requires
            old(self).wf(),
        ensures
            final(self).wf(),
            final(self).identity == old(self).identity,
            final(self).spk == old(self).spk,
            final(self).sessions().dom() == old(self).sessions().dom().insert(peer_id@),
            forall|p: Seq<u8>| p != peer_id@ && old(self).sessions().contains_key(p) ==> final(self).sessions()[p] == old(self).sessions()[p],
            ({
                let s = final(self).sessions()[peer_id@];
                &&& s.send_ratchet_key == spec_x25519_public(s.send_ratchet_secret)
                &&& s.send_chain_key is Some
                &&& (s.root_key, s.send_chain_key.unwrap()) == spec_dh_ratchet(
                    shared_secret.0@,
                    crate::crypto::primitives::spec_x25519_dh(s.send_ratchet_secret, peer_ratchet_pub@),
                )
                &&& s.recv_chain_key is None
                &&& s.recv_ratchet_key == Some(peer_ratchet_pub@)
                &&& s.send_count == 0 && s.recv_count == 0 && s.prev_send_count == 0
                &&& s.skipped == Map::<(Seq<u8>, u32), Seq<u8>>::empty()
                &&& forall|other: Seq<u8>|
                    #![trigger spec_x25519_public(other)]
                    peer_ratchet_pub@ == spec_x25519_public(other) ==> crate::crypto::primitives::spec_x25519_dh(
                        s.send_ratchet_secret,
                        peer_ratchet_pub@,
                    ) == crate::crypto::primitives::spec_x25519_dh(other, s.send_ratchet_key)
            }),
    {
        let state = RatchetState::init_sender(shared_secret, &peer_ratchet_pub);
        self.put_session(peer_id, state);
    }

    /// Starts a receiver-side session with a peer: our signed pre-key is the
    /// initial ratchet key pair.
    pub fn init_receiver_session(&mut self, peer_id: &[u8], shared_secret: &SharedSecret)
        requires
            old(self).wf(),
        ensures
            final(self).wf(),
            final(self).identity == old(self).identity,
            final(self).spk == old(self).spk,
            final(self).sessions() == old(self).sessions().insert(
                peer_id@,
                spec_receiver_view(shared_secret.0@, old(self).spk.secret@),
            ),
    {
        let state = RatchetState::init_receiver(shared_secret, self.spk.secret);
        self.put_session(peer_id, state);
    }

    /// Encrypts for a peer with its session's sending chain. Returns the
    /// ciphertext, our ratchet public key and the message number. No session
    /// with the peer is a session error.
    pub fn encrypt_for_peer(&mut self, peer_id: &[u8], plaintext: &[u8]) -> (r: Result<(Vec<u8>, Vec<u8>, u32)>)
        requires
            old(self).wf(),
            old(self).sessions().contains_key(peer_id@) && old(self).sessions()[peer_id@].send_chain_key is Some
                ==> old(self).sessions()[peer_id@].send_count < u32::MAX,
        ensures
            final(self).wf(),
            final(self).identity == old(self).identity,
            final(self).spk == old(self).spk,
            !old(self).sessions().contains_key(peer_id@) ==> r is Err && r->Err_0 is Session
                && final(self).sessions() == old(self).sessions(),
            old(self).sessions().contains_key(peer_id@) ==> ({
                let s = old(self).sessions()[peer_id@];
                &&& s.send_chain_key is None ==> r is Err && r->Err_0 is Crypto && final(self).sessions() == old(self).sessions()
                &&& s.send_chain_key is Some ==> final(self).sessions() == old(self).sessions().insert(peer_id@, spec_after_encrypt(s))
                    && (r is Ok <==> plaintext@.len() <= AES_GCM_P_MAX)
                &&& r is Ok ==> r->Ok_0.0@ == spec_aead_seal(spec_encrypt_key(s), spec_u32_be(s.send_count), plaintext@, s.send_ratchet_key)
                    && r->Ok_0.1@ == s.send_ratchet_key && r->Ok_0.2 == s.send_count
            }),
            r is Err ==> r->Err_0 is Session || r->Err_0 is Crypto,
    {
        let mut state = match self.take_session(peer_id) {
            Some(s) => s,
            None => {
                return Err(Error::Session("no session for peer".to_string()));
            },
        };
        let r = state.encrypt(plaintext);
        self.put_session(peer_id, state);
        proof {
            assert(self.sessions() =~= old(self).sessions().insert(peer_id@, state@));
        }
        match r {
            Ok((ct, rk, n)) => Ok((ct, vstd::slice::slice_to_vec(rk.as_slice()), n)),
            Err(e) => Err(e),
        }
    }

    /// Decrypts a message from a peer with its session. A ratchet key that
    /// is not 32 bytes is a crypto error; no session with the peer is a
    /// session error.
    pub fn decrypt_from_peer(&mut self, peer_id: &[u8], ciphertext: &[u8], ratchet_key: &[u8], msg_no: u32) -> (r: Result<Vec<u8>>)
        requires
            old(self).wf(),
            ratchet_key@.len() == 32 && old(self).sessions().contains_key(peer_id@) ==> !spec_decrypt_overflows(
                old(self).sessions()[peer_id@],
                ratchet_key@,
                msg_no,
            ),
        ensures
            final(self).wf(),
            final(self).identity == old(self).identity,
            final(self).spk == old(self).spk,
            ratchet_key@.len() != 32 ==> r is Err && r->Err_0 is Crypto && final(self).sessions() == old(self).sessions(),
            ratchet_key@.len() == 32 && !old(self).sessions().contains_key(peer_id@) ==> r is Err && r->Err_0 is Session
                && final(self).sessions() == old(self).sessions(),
            ratchet_key@.len() == 32 && old(self).sessions().contains_key(peer_id@) ==> final(self).sessions().dom()
                == old(self).sessions().dom() && final(self).sessions()[peer_id@] == spec_decrypt_state(
                old(self).sessions()[peer_id@],
                ratchet_key@,
                msg_no,
                final(self).sessions()[peer_id@].send_ratchet_secret,
            ) && forall|p: Seq<u8>| p != peer_id@ && old(self).sessions().contains_key(p) ==> final(self).sessions()[p]
                == old(self).sessions()[p],
            ratchet_key@.len() == 32 && old(self).sessions().contains_key(peer_id@) ==> ({
                let k = spec_decrypt_key(
                    old(self).sessions()[peer_id@],
                    ratchet_key@,
                    msg_no,
                    final(self).sessions()[peer_id@].send_ratchet_secret,
                );
                let opened = spec_aead_open(k.unwrap(), spec_u32_be(msg_no), ciphertext@, ratchet_key@);
                &&& k is None ==> r is Err
                &&& k is Some ==> (r is Ok <==> opened is Some)
                &&& k is Some && r is Ok ==> opened == Some(r->Ok_0@)
                &&& forall|p: Seq<u8>|
                    #![trigger spec_aead_seal(k.unwrap(), spec_u32_be(msg_no), p, ratchet_key@)]
                    k is Some && ciphertext@ == spec_aead_seal(k.unwrap(), spec_u32_be(msg_no), p, ratchet_key@)
                        && p.len() <= AES_GCM_P_MAX ==> r is Ok && r->Ok_0@ == p
            }),
            r is Err ==> r->Err_0 is Session || r->Err_0 is Crypto,
    {
        if ratchet_key.len() != 32 {
            return Err(crypto_error("ratchet_key must be 32 bytes"));
        }
        let rk: [u8; 32] = to_array(ratchet_key);
        let mut state = match self.take_session(peer_id) {
            Some(s) => s,
            None => {
                return Err(Error::Session("no session for peer".to_string()));
            },
        };
        let r = state.decrypt(ciphertext, &rk, msg_no);
        self.put_session(peer_id, state);
        proof {
            assert(self.sessions() =~= old(self).sessions().insert(peer_id@, state@));
        }
        r
    }
}

/// Of two peers with different ids, exactly one takes the sender's role in
/// `init_mutual_session`.
pub proof fn lemma_exactly_one_sender(a: PeerId, b: PeerId)
    requires
        a.0@ != b.0@,
    ensures
        (lex_le(a.0@, b.0@) && a.0@ != b.0@) != (lex_le(b.0@, a.0@) && b.0@ != a.0@),
{
    crate::common::byte_util::lemma_lex_le_total_order(a.0@, b.0@);
}

} // verus!
