//! The Double Ratchet: symmetric KDF chains, DH ratchet steps, and the
//! per-session state with out-of-order message keys.
//!
//! The state's meaning is given by `RatchetView`; `encrypt` and `decrypt`
//! are specified as transitions on it. The laws at the end state what the
//! protocol is for: a receiver in step with a sender derives the very message
//! key the sender used, for the first message after initialisation, for the
//! next message of a chain, and for messages that arrive out of order.

use vstd::prelude::*;
use crate::common::byte_util::bytes_eq;
use crate::common::assoc::{keys_unique, assoc_map, lemma_assoc_index, lemma_assoc_push, lemma_assoc_update, lemma_assoc_remove, lemma_assoc_absent};
use crate::common::error::{Result, crypto_error};
use crate::crypto::aead::{aead_encrypt, aead_decrypt, spec_aead_seal, spec_aead_open};
use crate::crypto::primitives::{
    spec_hkdf_sha256, hkdf_sha256, spec_x25519_dh, spec_x25519_public, x25519_diffie_hellman,
    x25519_public_key, random_bytes, AES_GCM_P_MAX, AES_GCM_TAG_LEN,
};
use crate::crypto::x3dh::SharedSecret;

verus! {

/// HKDF info of a chain-key step (`chain-key`).
pub const CHAIN_KEY_INFO: [u8; 9] = [99, 104, 97, 105, 110, 45, 107, 101, 121];

/// HKDF info of a message key (`message-key`).
pub const MESSAGE_KEY_INFO: [u8; 11] = [109, 101, 115, 115, 97, 103, 101, 45, 107, 101, 121];

/// HKDF info of the root key of a DH ratchet step (`dh-ratchet-root`).
pub const DH_ROOT_INFO: [u8; 15] = [100, 104, 45, 114, 97, 116, 99, 104, 101, 116, 45, 114, 111, 111, 116];

/// HKDF info of the chain key of a DH ratchet step (`dh-ratchet-chain`).
pub const DH_CHAIN_INFO: [u8; 16] = [100, 104, 45, 114, 97, 116, 99, 104, 101, 116, 45, 99, 104, 97, 105, 110];

/// Maximum number of message keys skipped in one step.
pub const MAX_SKIP: u32 = 256;

/// One KDF chain step: `(next chain key, message key)`, both HKDF-SHA256
/// salted with the chain key.
pub open spec fn spec_kdf_chain(ck: Seq<u8>) -> (Seq<u8>, Seq<u8>) {
    (
        spec_hkdf_sha256(Some(ck), seq![1u8], CHAIN_KEY_INFO@, 32),
        spec_hkdf_sha256(Some(ck), seq![2u8], MESSAGE_KEY_INFO@, 32),
    )
}

/// One DH ratchet step: `(next root key, new chain key)`.
pub open spec fn spec_dh_ratchet(root_key: Seq<u8>, dh_output: Seq<u8>) -> (Seq<u8>, Seq<u8>) {
    (
        spec_hkdf_sha256(Some(root_key), dh_output, DH_ROOT_INFO@, 32),
        spec_hkdf_sha256(Some(root_key), dh_output, DH_CHAIN_INFO@, 32),
    )
}

/// The chain key after `k` steps from `ck`.
pub open spec fn spec_chain_after(ck: Seq<u8>, k: nat) -> Seq<u8>
    decreases k,
{
    if k == 0 {
        ck
    } else {
        spec_kdf_chain(spec_chain_after(ck, (k - 1) as nat)).0
    }
}

/// The message key of the `k`-th step of the chain starting at `ck`.
pub open spec fn spec_message_key_at(ck: Seq<u8>, k: nat) -> Seq<u8> {
    spec_kdf_chain(spec_chain_after(ck, k)).1
}

/// Big-endian bytes of a message number: the AEAD nonce material.
pub open spec fn spec_u32_be(n: u32) -> Seq<u8> {
    seq![(n >> 24u32) as u8, (n >> 16u32) as u8, (n >> 8u32) as u8, n as u8]
}

fn u32_be(n: u32) -> (b: [u8; 4])
    ensures
        b@ == spec_u32_be(n),
{
    let b = [(n >> 24u32) as u8, (n >> 16u32) as u8, (n >> 8u32) as u8, n as u8];
    assert(b@ =~= spec_u32_be(n));
    b
}

/// A KDF chain step: derive the next chain key and a message key.
pub fn kdf_chain(chain_key: &[u8; 32]) -> (r: ([u8; 32], [u8; 32]))
    ensures
        (r.0@, r.1@) == spec_kdf_chain(chain_key@),
{
    let one: [u8; 1] = [1u8];
    let two: [u8; 1] = [2u8];
    assert(one@ =~= seq![1u8]);
    assert(two@ =~= seq![2u8]);
    let new_chain_key: [u8; 32] = hkdf_sha256(Some(chain_key.as_slice()), one.as_slice(), CHAIN_KEY_INFO.as_slice());
    let message_key: [u8; 32] = hkdf_sha256(Some(chain_key.as_slice()), two.as_slice(), MESSAGE_KEY_INFO.as_slice());
    (new_chain_key, message_key)
}

/// A DH ratchet step: derive a new root key and chain key from a root key
/// and a Diffie-Hellman output.
pub fn dh_ratchet(root_key: &[u8; 32], dh_output: &[u8; 32]) -> (r: ([u8; 32], [u8; 32]))
    ensures
        (r.0@, r.1@) == spec_dh_ratchet(root_key@, dh_output@),
{
    let new_root_key: [u8; 32] = hkdf_sha256(Some(root_key.as_slice()), dh_output.as_slice(), DH_ROOT_INFO.as_slice());
    let new_chain_key: [u8; 32] = hkdf_sha256(Some(root_key.as_slice()), dh_output.as_slice(), DH_CHAIN_INFO.as_slice());
    (new_root_key, new_chain_key)
}

/// A stored message key for a message not yet received.
#[derive(Clone, Copy)]
pub struct SkippedKey {
    pub ratchet_key: [u8; 32],
    pub msg_no: u32,
    pub message_key: [u8; 32],
}

/// The lookup key of a stored message key: (ratchet public key, message number).
pub open spec fn skipped_key_of(e: SkippedKey) -> (Seq<u8>, u32) {
    (e.ratchet_key@, e.msg_no)
}

/// The lookup key of an entry, as a function.
pub open spec fn skipped_key_fn() -> spec_fn(SkippedKey) -> (Seq<u8>, u32) {
    |e: SkippedKey| skipped_key_of(e)
}

/// The message key of an entry, as a function.
pub open spec fn skipped_val_fn() -> spec_fn(SkippedKey) -> Seq<u8> {
    |e: SkippedKey| e.message_key@
}

/// No two stored message keys share a lookup key.
pub open spec fn skipped_unique(s: Seq<SkippedKey>) -> bool {
    keys_unique(s, skipped_key_fn())
}

/// The map from lookup keys to message keys that a list of entries holds.
pub open spec fn skipped_map(s: Seq<SkippedKey>) -> Map<(Seq<u8>, u32), Seq<u8>> {
    assoc_map(s, skipped_key_fn(), skipped_val_fn())
}

/// The index of the stored key for (`ratchet_key`, `msg_no`), if any.
fn find_skipped(entries: &Vec<SkippedKey>, ratchet_key: &[u8; 32], msg_no: u32) -> (r: Option<usize>)
    ensures
        r matches Some(i) ==> i < entries@.len() && skipped_key_of(entries@[i as int]) == (ratchet_key@, msg_no),
        r is None ==> forall|i: int| 0 <= i < entries@.len() ==> skipped_key_of(entries@[i]) != (ratchet_key@, msg_no),
{
    let mut i: usize = 0;
    while i < entries.len()
        invariant
            0 <= i <= entries@.len(),
            forall|j: int| 0 <= j < i ==> skipped_key_of(entries@[j]) != (ratchet_key@, msg_no),
        decreases entries@.len() - i,
    {
        let e = &entries[i];
        if e.msg_no == msg_no && bytes_eq(e.ratchet_key.as_slice(), ratchet_key.as_slice()) {
            return Some(i);
        }
        i = i + 1;
    }
    None
}

/// Stores a message key, replacing one stored under the same lookup key.
fn store_skipped(entries: &mut Vec<SkippedKey>, e: SkippedKey)
    requires
        skipped_unique(old(entries)@),
    ensures
        skipped_unique(final(entries)@),
        skipped_map(final(entries)@) == skipped_map(old(entries)@).insert(skipped_key_of(e), e.message_key@),
{
    match find_skipped(entries, &e.ratchet_key, e.msg_no) {
        Some(i) => {
            proof {
                lemma_assoc_update(entries@, skipped_key_fn(), skipped_val_fn(), i as int, e);
            }
            entries.set(i, e);
        },
        None => {
            proof {
                lemma_assoc_push(entries@, skipped_key_fn(), skipped_val_fn(), e);
            }
            entries.push(e);
        },
    }
}

/// The abstract Double Ratchet state.
pub struct RatchetView {
    pub root_key: Seq<u8>,
    pub send_chain_key: Option<Seq<u8>>,
    pub recv_chain_key: Option<Seq<u8>>,
    pub send_ratchet_secret: Seq<u8>,
    pub send_ratchet_key: Seq<u8>,
    pub recv_ratchet_key: Option<Seq<u8>>,
    pub send_count: u32,
    pub recv_count: u32,
    pub prev_send_count: u32,
    pub skipped: Map<(Seq<u8>, u32), Seq<u8>>,
}

/// The view of an optional 32-byte key.
pub open spec fn opt_key(k: Option<[u8; 32]>) -> Option<Seq<u8>> {
    match k {
        Some(b) => Some(b@),
        None => None,
    }
}

/// The Double Ratchet state of a single session.
pub struct RatchetState {
    /// Current root key.
    pub root_key: [u8; 32],
    /// Current sending chain key (none before the first DH ratchet on the receiver side).
    pub send_chain_key: Option<[u8; 32]>,
    /// Current receiving chain key (none before a message with a new ratchet key).
    pub recv_chain_key: Option<[u8; 32]>,
    /// Our current DH ratchet secret key.
    pub send_ratchet_secret: [u8; 32],
    /// Our current DH ratchet public key.
    pub send_ratchet_key: [u8; 32],
    /// The peer's current DH ratchet public key (none if not yet received).
    pub recv_ratchet_key: Option<[u8; 32]>,
    /// Number of messages sent in the current sending chain.
    pub send_count: u32,
    /// Number of messages received in the current receiving chain.
    pub recv_count: u32,
    /// Previous sending chain length.
    pub prev_send_count: u32,
    /// Message keys kept for out-of-order decryption, one per
    /// (ratchet public key, message number).
    pub skipped_keys: Vec<SkippedKey>,
}

impl View for RatchetState {
    type V = RatchetView;

    open spec fn view(&self) -> RatchetView {
        RatchetView {
            root_key: self.root_key@,
            send_chain_key: opt_key(self.send_chain_key),
            recv_chain_key: opt_key(self.recv_chain_key),
            send_ratchet_secret: self.send_ratchet_secret@,
            send_ratchet_key: self.send_ratchet_key@,
            recv_ratchet_key: opt_key(self.recv_ratchet_key),
            send_count: self.send_count,
            recv_count: self.recv_count,
            prev_send_count: self.prev_send_count,
            skipped: skipped_map(self.skipped_keys@),
        }
    }
}

/// The message key `encrypt` uses in a state with a sending chain.
pub open spec fn spec_encrypt_key(v: RatchetView) -> Seq<u8> {
    spec_kdf_chain(v.send_chain_key.unwrap()).1
}

/// The state after `encrypt` in a state with a sending chain.
pub open spec fn spec_after_encrypt(v: RatchetView) -> RatchetView {
    RatchetView {
        send_chain_key: Some(spec_kdf_chain(v.send_chain_key.unwrap()).0),
        send_count: (v.send_count + 1) as u32,
        ..v
    }
}

/// Whether a message under `rk` makes the receiver take a DH ratchet step.
pub open spec fn spec_needs_dh(v: RatchetView, rk: Seq<u8>) -> bool {
    v.recv_ratchet_key != Some(rk)
}

/// The DH ratchet step on a message under `rk`, with `new_secret` as our
/// next ratchet secret.
pub open spec fn spec_dh_step(v: RatchetView, rk: Seq<u8>, new_secret: Seq<u8>) -> RatchetView {
    let (root1, recv_ck) = spec_dh_ratchet(v.root_key, spec_x25519_dh(v.send_ratchet_secret, rk));
    let (root2, send_ck) = spec_dh_ratchet(root1, spec_x25519_dh(new_secret, rk));
    RatchetView {
        root_key: root2,
        send_chain_key: Some(send_ck),
        recv_chain_key: Some(recv_ck),
        send_ratchet_secret: new_secret,
        send_ratchet_key: spec_x25519_public(new_secret),
        recv_ratchet_key: Some(rk),
        send_count: 0,
        recv_count: 0,
        prev_send_count: v.send_count,
        skipped: v.skipped,
    }
}

/// The message keys of numbers `from..until` of the chain under `rk` that
/// starts, at number `from`, with chain key `ck`.
pub open spec fn spec_skip_entries(rk: Seq<u8>, ck: Seq<u8>, from: u32, until: u32) -> Map<(Seq<u8>, u32), Seq<u8>> {
    Map::new(
        |k: (Seq<u8>, u32)| k.0 == rk && from <= k.1 < until,
        |k: (Seq<u8>, u32)| spec_message_key_at(ck, (k.1 - from) as nat),
    )
}

/// Storing the message keys up to `until` of the receiving chain: `None`
/// when more than `MAX_SKIP` would be stored.
pub open spec fn spec_skip(v: RatchetView, until: u32) -> Option<RatchetView> {
    if v.recv_chain_key is Some && v.recv_ratchet_key is Some {
        let ck = v.recv_chain_key.unwrap();
        let rk = v.recv_ratchet_key.unwrap();
        let to_skip: nat = if until > v.recv_count { (until - v.recv_count) as nat } else { 0 };
        if to_skip > MAX_SKIP {
            None
        } else {
            Some(
                RatchetView {
                    skipped: v.skipped.union_prefer_right(spec_skip_entries(rk, ck, v.recv_count, until)),
                    recv_chain_key: Some(spec_chain_after(ck, to_skip)),
                    recv_count: until,
                    ..v
                },
            )
        }
    } else {
        Some(v)
    }
}

/// The state once the ratchet step (if any) and the skipping are done.
pub open spec fn spec_before_receive(v: RatchetView, rk: Seq<u8>, new_secret: Seq<u8>) -> RatchetView {
    if spec_needs_dh(v, rk) {
        spec_dh_step(v, rk, new_secret)
    } else {
        v
    }
}

/// The message key `decrypt` opens a message `n` under `rk` with: `None`
/// when it fails before opening (too many skipped, or no receiving chain).
pub open spec fn spec_decrypt_key(v: RatchetView, rk: Seq<u8>, n: u32, new_secret: Seq<u8>) -> Option<Seq<u8>> {
    if v.skipped.contains_key((rk, n)) {
        Some(v.skipped[(rk, n)])
    } else {
        match spec_skip(spec_before_receive(v, rk, new_secret), n) {
            None => None,
            Some(v2) => match v2.recv_chain_key {
                None => None,
                Some(ck) => Some(spec_kdf_chain(ck).1),
            },
        }
    }
}

/// The state after `decrypt` of a message `n` under `rk`.
pub open spec fn spec_decrypt_state(v: RatchetView, rk: Seq<u8>, n: u32, new_secret: Seq<u8>) -> RatchetView {
    if v.skipped.contains_key((rk, n)) {
        RatchetView { skipped: v.skipped.remove((rk, n)), ..v }
    } else {
        let v1 = spec_before_receive(v, rk, new_secret);
        match spec_skip(v1, n) {
            None => v1,
            Some(v2) => match v2.recv_chain_key {
                None => v2,
                Some(ck) => RatchetView {
                    recv_chain_key: Some(spec_kdf_chain(ck).0),
                    recv_count: (v2.recv_count + 1) as u32,
                    ..v2
                },
            },
        }
    }
}

/// `decrypt` of message `n` under `rk` would count past `u32::MAX`: the
/// same receiving chain, nothing stored for it, and few enough messages
/// skipped to reach the last number.
pub open spec fn spec_decrypt_overflows(v: RatchetView, rk: Seq<u8>, n: u32) -> bool {
    &&& n == u32::MAX
    &&& !v.skipped.contains_key((rk, n))
    &&& !spec_needs_dh(v, rk)
    &&& v.recv_chain_key is Some
    &&& u32::MAX - v.recv_count <= MAX_SKIP
}

impl RatchetState {
    /// Stored message keys are unique per lookup key.
    pub open spec fn wf(&self) -> bool {
        skipped_unique(self.skipped_keys@)
    }

    /// The sender's (initiator's) state: a fresh ratchet key pair, and a DH
    /// ratchet step from the shared secret with the peer's ratchet key.
    /// When the peer's key is the public key of some secret, the step's DH
    /// output is what the peer computes with our new public key.
    pub fn init_sender(shared_secret: &SharedSecret, peer_ratchet_pubkey: &[u8; 32]) -> (s: Self)
        ensures
            s.wf(),
            s@.send_ratchet_key == spec_x25519_public(s@.send_ratchet_secret),
            (s@.root_key, s@.send_chain_key.unwrap()) == spec_dh_ratchet(
                shared_secret.0@,
                spec_x25519_dh(s@.send_ratchet_secret, peer_ratchet_pubkey@),
            ),
            s@.send_chain_key is Some,
            s@.recv_chain_key is None,
            s@.recv_ratchet_key == Some(peer_ratchet_pubkey@),
            s@.send_count == 0,
            s@.recv_count == 0,
            s@.prev_send_count == 0,
            s@.skipped == Map::<(Seq<u8>, u32), Seq<u8>>::empty(),
            forall|other: Seq<u8>|
                #![trigger spec_x25519_public(other)]
                peer_ratchet_pubkey@ == spec_x25519_public(other) ==> spec_x25519_dh(
                    s@.send_ratchet_secret,
                    peer_ratchet_pubkey@,
                ) == spec_x25519_dh(other, s@.send_ratchet_key),
    {
        let our_ratchet_secret: [u8; 32] = random_bytes();
        let our_ratchet_public = x25519_public_key(&our_ratchet_secret);
        let dh_output = x25519_diffie_hellman(&our_ratchet_secret, peer_ratchet_pubkey);
        let (root_key, send_chain_key) = dh_ratchet(shared_secret.as_bytes(), &dh_output);
        let s = RatchetState {
            root_key,
            send_chain_key: Some(send_chain_key),
            recv_chain_key: None,
            send_ratchet_secret: our_ratchet_secret,
            send_ratchet_key: our_ratchet_public,
            recv_ratchet_key: Some(*peer_ratchet_pubkey),
            send_count: 0,
            recv_count: 0,
            prev_send_count: 0,
            skipped_keys: Vec::new(),
        };
        proof {
            assert(s@.skipped =~= Map::<(Seq<u8>, u32), Seq<u8>>::empty());
        }
        s
    }

    /// The receiver's (responder's) state: the shared secret as root key and
    /// our initial ratchet key pair; no chains yet.
    pub fn init_receiver(shared_secret: &SharedSecret, our_ratchet_secret: [u8; 32]) -> (s: Self)
        ensures
            s.wf(),
            s@ == spec_receiver_view(shared_secret.0@, our_ratchet_secret@),
    {
        let our_ratchet_public = x25519_public_key(&our_ratchet_secret);
        let s = RatchetState {
            root_key: *shared_secret.as_bytes(),
            send_chain_key: None,
            recv_chain_key: None,
            send_ratchet_secret: our_ratchet_secret,
            send_ratchet_key: our_ratchet_public,
            recv_ratchet_key: None,
            send_count: 0,
            recv_count: 0,
            prev_send_count: 0,
            skipped_keys: Vec::new(),
        };
        proof {
            assert(s@.skipped =~= Map::<(Seq<u8>, u32), Seq<u8>>::empty());
        }
        s
    }

    /// Encrypts with the next message key of the sending chain. Returns the
    /// ciphertext, our ratchet public key (the associated data) and the
    /// message number (the nonce material). Without a sending chain it is a
    /// crypto error and nothing changes.
    pub fn encrypt(&mut self, plaintext: &[u8]) -> (r: Result<(Vec<u8>, [u8; 32], u32)>)
        requires
            old(self).wf(),
            old(self)@.send_chain_key is Some ==> old(self).send_count < u32::MAX,
        ensures
            final(self).wf(),
            old(self)@.send_chain_key is None ==> r is Err && final(self)@ == old(self)@,
            old(self)@.send_chain_key is Some ==> final(self)@ == spec_after_encrypt(old(self)@)
                && (r is Ok <==> plaintext@.len() <= AES_GCM_P_MAX),
            r is Ok ==> r->Ok_0.0@ == spec_aead_seal(
                spec_encrypt_key(old(self)@),
                spec_u32_be(old(self).send_count),
                plaintext@,
                old(self).send_ratchet_key@,
            ) && r->Ok_0.0@.len() == plaintext@.len() + AES_GCM_TAG_LEN
                && r->Ok_0.1@ == old(self).send_ratchet_key@ && r->Ok_0.2 == old(self).send_count,
            r is Err ==> r->Err_0 is Crypto,
    {
        let send_chain_key = match self.send_chain_key {
            Some(k) => k,
            None => {
                return Err(crypto_error("send_chain_key must be initialized before encrypting"));
            },
        };
        let (new_chain_key, message_key) = kdf_chain(&send_chain_key);
        self.send_chain_key = Some(new_chain_key);
        let msg_no = self.send_count;
        self.send_count = self.send_count + 1;
        let nonce_material = u32_be(msg_no);
        let ciphertext = aead_encrypt(&message_key, nonce_material.as_slice(), plaintext, self.send_ratchet_key.as_slice())?;
        Ok((ciphertext, self.send_ratchet_key, msg_no))
    }

    /// Decrypts message `msg_no` sent under the peer's ratchet key. A key
    /// stored for it is used and dropped; a new ratchet key makes a DH
    /// ratchet step (with a fresh secret of ours); keys of messages skipped
    /// over are stored; then the next key of the receiving chain opens the
    /// message. A ciphertext sealed under the key used opens to its plaintext.
    pub fn decrypt(&mut self, ciphertext: &[u8], ratchet_pubkey: &[u8; 32], msg_no: u32) -> (r: Result<Vec<u8>>)
        requires
            old(self).wf(),
            !spec_decrypt_overflows(old(self)@, ratchet_pubkey@, msg_no),
        ensures
            final(self).wf(),
            final(self)@ == spec_decrypt_state(old(self)@, ratchet_pubkey@, msg_no, final(self)@.send_ratchet_secret),
            !spec_needs_dh(old(self)@, ratchet_pubkey@) || old(self)@.skipped.contains_key((ratchet_pubkey@, msg_no))
                ==> final(self)@.send_ratchet_secret == old(self)@.send_ratchet_secret,
            spec_needs_dh(old(self)@, ratchet_pubkey@) && !old(self)@.skipped.contains_key((ratchet_pubkey@, msg_no))
                ==> forall|other: Seq<u8>|
                #![trigger spec_x25519_public(other)]
                ratchet_pubkey@ == spec_x25519_public(other) ==> spec_x25519_dh(
                    final(self)@.send_ratchet_secret,
                    ratchet_pubkey@,
                ) == spec_x25519_dh(other, final(self)@.send_ratchet_key),
            ({
                let k = spec_decrypt_key(old(self)@, ratchet_pubkey@, msg_no, final(self)@.send_ratchet_secret);
                let opened = spec_aead_open(k.unwrap(), spec_u32_be(msg_no), ciphertext@, ratchet_pubkey@);
                &&& k is None ==> r is Err
                &&& k is Some ==> (r is Ok <==> opened is Some)
                &&& k is Some && r is Ok ==> opened == Some(r->Ok_0@)
                &&& forall|p: Seq<u8>|
                    #![trigger spec_aead_seal(k.unwrap(), spec_u32_be(msg_no), p, ratchet_pubkey@)]
                    k is Some && ciphertext@ == spec_aead_seal(k.unwrap(), spec_u32_be(msg_no), p, ratchet_pubkey@)
                        && p.len() <= AES_GCM_P_MAX ==> r is Ok && r->Ok_0@ == p
            }),
            r is Err ==> r->Err_0 is Crypto,
    {
        let nonce_material = u32_be(msg_no);
        match find_skipped(&self.skipped_keys, ratchet_pubkey, msg_no) {
            Some(i) => {
                proof {
                    lemma_assoc_index(self.skipped_keys@, skipped_key_fn(), skipped_val_fn(), i as int);
                    lemma_assoc_remove(self.skipped_keys@, skipped_key_fn(), skipped_val_fn(), i as int);
                }
                let entry = self.skipped_keys.remove(i);
                return aead_decrypt(&entry.message_key, nonce_material.as_slice(), ciphertext, ratchet_pubkey.as_slice());
            },
            None => {
                proof {
                    lemma_assoc_absent(self.skipped_keys@, skipped_key_fn(), skipped_val_fn(), (ratchet_pubkey@, msg_no));
                }
            },
        }
        let need_dh_ratchet = match &self.recv_ratchet_key {
            None => true,
            Some(existing) => !bytes_eq(existing.as_slice(), ratchet_pubkey.as_slice()),
        };
        proof {
            assert(need_dh_ratchet == spec_needs_dh(old(self)@, ratchet_pubkey@)) by {
                if let Some(existing) = old(self).recv_ratchet_key {
                    if existing@ == ratchet_pubkey@ {
                        assert(existing =~= *ratchet_pubkey);
                    }
                }
            }
        }
        if need_dh_ratchet {
            self.prev_send_count = self.send_count;
            self.send_count = 0;
            self.recv_count = 0;
            self.recv_ratchet_key = Some(*ratchet_pubkey);
            let dh_recv = x25519_diffie_hellman(&self.send_ratchet_secret, ratchet_pubkey);
            let (root1, recv_chain_key) = dh_ratchet(&self.root_key, &dh_recv);
            self.root_key = root1;
            self.recv_chain_key = Some(recv_chain_key);
            self.send_ratchet_secret = random_bytes();
            self.send_ratchet_key = x25519_public_key(&self.send_ratchet_secret);
            let dh_send = x25519_diffie_hellman(&self.send_ratchet_secret, ratchet_pubkey);
            let (root2, send_chain_key) = dh_ratchet(&self.root_key, &dh_send);
            self.root_key = root2;
            self.send_chain_key = Some(send_chain_key);
        }
        assert(self@ == spec_before_receive(old(self)@, ratchet_pubkey@, self@.send_ratchet_secret));
        self.skip_messages(msg_no)?;
        let recv_chain_key = match self.recv_chain_key {
            Some(k) => k,
            None => {
                return Err(crypto_error("recv_chain_key not initialized"));
            },
        };
        let (new_chain_key, message_key) = kdf_chain(&recv_chain_key);
        self.recv_chain_key = Some(new_chain_key);
        self.recv_count = self.recv_count + 1;
        aead_decrypt(&message_key, nonce_material.as_slice(), ciphertext, ratchet_pubkey.as_slice())
    }

    /// Stores the message keys of the receiving chain up to `until` (at most
    /// `MAX_SKIP` of them) for out-of-order decryption.
    fn skip_messages(&mut self, until: u32) -> (r: Result<()>)
        requires
            old(self).wf(),
        ensures
            final(self).wf(),
            match spec_skip(old(self)@, until) {
                None => r is Err && final(self)@ == old(self)@,
                Some(v) => r is Ok && final(self)@ == v,
            },
            r is Err ==> r->Err_0 is Crypto,
    {
        match (self.recv_chain_key, self.recv_ratchet_key) {
            (Some(recv_chain_key), Some(recv_ratchet_key)) => {
                let to_skip: u32 = if until > self.recv_count { until - self.recv_count } else { 0 };
                if to_skip > MAX_SKIP {
                    return Err(crypto_error("Too many skipped messages"));
                }
                let ghost v0 = self@;
                let from = self.recv_count;
                let mut chain_key = recv_chain_key;
                let mut i: u32 = from;
                while i < until
                    invariant
                        from <= until ==> from <= i <= until,
                        from > until ==> i == from,
                        skipped_unique(self.skipped_keys@),
                        chain_key@ == spec_chain_after(recv_chain_key@, (i - from) as nat),
                        skipped_map(self.skipped_keys@) == v0.skipped.union_prefer_right(
                            spec_skip_entries(recv_ratchet_key@, recv_chain_key@, from, i),
                        ),
                        self@ == (RatchetView { skipped: skipped_map(self.skipped_keys@), ..v0 }),
                    decreases until - i,
                {
                    let (new_chain_key, message_key) = kdf_chain(&chain_key);
                    let ghost before = skipped_map(self.skipped_keys@);
                    store_skipped(&mut self.skipped_keys, SkippedKey { ratchet_key: recv_ratchet_key, msg_no: i, message_key });
                    proof {
                        let e1 = spec_skip_entries(recv_ratchet_key@, recv_chain_key@, from, i);
                        let e2 = spec_skip_entries(recv_ratchet_key@, recv_chain_key@, from, (i + 1) as u32);
                        assert(message_key@ == spec_message_key_at(recv_chain_key@, (i - from) as nat));
                        assert(v0.skipped.union_prefer_right(e2) =~= v0.skipped.union_prefer_right(e1).insert(
                            (recv_ratchet_key@, i),
                            message_key@,
                        ));
                    }
                    chain_key = new_chain_key;
                    i = i + 1;
                }
                self.recv_chain_key = Some(chain_key);
                self.recv_count = until;
                proof {
                    if from > until {
                        assert(spec_skip_entries(recv_ratchet_key@, recv_chain_key@, from, i)
                            =~= spec_skip_entries(recv_ratchet_key@, recv_chain_key@, from, until));
                    }
                }
                Ok(())
            },
            _ => Ok(()),
        }
    }
}

/// The receiver's state right after `init_receiver`.
pub open spec fn spec_receiver_view(shared_secret: Seq<u8>, secret: Seq<u8>) -> RatchetView {
    RatchetView {
        root_key: shared_secret,
        send_chain_key: None,
        recv_chain_key: None,
        send_ratchet_secret: secret,
        send_ratchet_key: spec_x25519_public(secret),
        recv_ratchet_key: None,
        send_count: 0,
        recv_count: 0,
        prev_send_count: 0,
        skipped: Map::empty(),
    }
}

/// `a` sends to `b` in step: `b` receives on `a`'s current sending chain at
/// the number `a` sends next, with no key stored for that chain from there on.
pub open spec fn spec_in_step(a: RatchetView, b: RatchetView) -> bool {
    &&& a.send_chain_key is Some
    &&& b.recv_chain_key == a.send_chain_key
    &&& b.recv_ratchet_key == Some(a.send_ratchet_key)
    &&& b.recv_count == a.send_count
    &&& forall|m: u32|
        m >= a.send_count ==> !#[trigger] b.skipped.contains_key((a.send_ratchet_key, m))
}

/// `b` has taken its DH ratchet step on `a`'s ratchet key and not sent yet:
/// `b`'s new sending chain comes from `a`'s root key and `b`'s fresh secret.
pub open spec fn spec_reply_ready(a: RatchetView, b: RatchetView) -> bool {
    &&& b.recv_ratchet_key == Some(a.send_ratchet_key)
    &&& a.send_ratchet_key == spec_x25519_public(a.send_ratchet_secret)
    &&& b.send_ratchet_key == spec_x25519_public(b.send_ratchet_secret)
    &&& b.send_chain_key is Some
    &&& (b.root_key, b.send_chain_key.unwrap()) == spec_dh_ratchet(
        a.root_key,
        spec_x25519_dh(b.send_ratchet_secret, a.send_ratchet_key),
    )
    &&& b.send_count == 0
}

/// The state after `k` successful encryptions.
pub open spec fn spec_encrypt_n(a: RatchetView, k: nat) -> RatchetView
    decreases k,
{
    if k == 0 {
        a
    } else {
        spec_after_encrypt(spec_encrypt_n(a, (k - 1) as nat))
    }
}

proof fn lemma_encrypt_n(a: RatchetView, k: nat)
    requires
        a.send_chain_key is Some,
        a.send_count + k <= u32::MAX,
    ensures
        spec_encrypt_n(a, k).send_chain_key == Some(spec_chain_after(a.send_chain_key.unwrap(), k)),
        spec_encrypt_n(a, k).send_count == a.send_count + k,
        spec_encrypt_n(a, k).send_ratchet_key == a.send_ratchet_key,
        spec_encrypt_key(spec_encrypt_n(a, k)) == spec_message_key_at(a.send_chain_key.unwrap(), k),
    decreases k,
{
    if k > 0 {
        lemma_encrypt_n(a, (k - 1) as nat);
    }
}

/// Next message of a chain: when `a` sends to `b` in step, `b` opens `a`'s
/// next message with the very key `a` sealed it with (same nonce material,
/// same associated data), and the two stay in step. The other direction is
/// untouched: if `b` sent to `a` in step, or was ready to reply, it still is.
pub proof fn lemma_next_message_in_step(a: RatchetView, b: RatchetView, new_secret: Seq<u8>)
    requires
        spec_in_step(a, b),
        a.send_count < u32::MAX,
    ensures
        !spec_decrypt_overflows(b, a.send_ratchet_key, a.send_count),
        spec_decrypt_key(b, a.send_ratchet_key, a.send_count, new_secret) == Some(spec_encrypt_key(a)),
        spec_in_step(
            spec_after_encrypt(a),
            spec_decrypt_state(b, a.send_ratchet_key, a.send_count, new_secret),
        ),
        spec_decrypt_state(b, a.send_ratchet_key, a.send_count, new_secret).send_ratchet_secret == b.send_ratchet_secret,
        spec_in_step(b, a) ==> spec_in_step(
            spec_decrypt_state(b, a.send_ratchet_key, a.send_count, new_secret),
            spec_after_encrypt(a),
        ),
        spec_reply_ready(a, b) ==> spec_reply_ready(
            spec_after_encrypt(a),
            spec_decrypt_state(b, a.send_ratchet_key, a.send_count, new_secret),
        ),
{
    let rk = a.send_ratchet_key;
    let n = a.send_count;
    assert(!b.skipped.contains_key((rk, n)));
    let ck = b.recv_chain_key.unwrap();
    let e = spec_skip_entries(rk, ck, n, n);
    assert(b.skipped.union_prefer_right(e) =~= b.skipped);
    let b2 = spec_decrypt_state(b, rk, n, new_secret);
    assert forall|m: u32| m >= n + 1 implies !#[trigger] b2.skipped.contains_key((rk, m)) by {
        assert(!b.skipped.contains_key((rk, m)));
    }
}

/// First message: a sender initialised with the shared secret and the
/// receiver's initial ratchet public key, and the receiver initialised with
/// the same secret and the matching ratchet secret, agree on the first
/// message key; afterwards the sender sends in step and the receiver is
/// ready to reply. `init_sender` supplies the X25519 agreement required.
pub proof fn lemma_first_message(
    shared_secret: Seq<u8>,
    a: RatchetView,
    bob_secret: Seq<u8>,
    new_secret: Seq<u8>,
)
    requires
        a.send_ratchet_key == spec_x25519_public(a.send_ratchet_secret),
        a.send_chain_key is Some,
        (a.root_key, a.send_chain_key.unwrap()) == spec_dh_ratchet(
            shared_secret,
            spec_x25519_dh(a.send_ratchet_secret, spec_x25519_public(bob_secret)),
        ),
        a.send_count == 0,
        spec_x25519_dh(a.send_ratchet_secret, spec_x25519_public(bob_secret)) == spec_x25519_dh(
            bob_secret,
            a.send_ratchet_key,
        ),
    ensures
        ({
            let b = spec_receiver_view(shared_secret, bob_secret);
            let b2 = spec_decrypt_state(b, a.send_ratchet_key, 0, new_secret);
            &&& !spec_decrypt_overflows(b, a.send_ratchet_key, 0)
            &&& spec_decrypt_key(b, a.send_ratchet_key, 0, new_secret) == Some(spec_encrypt_key(a))
            &&& b2.send_ratchet_secret == new_secret
            &&& spec_in_step(spec_after_encrypt(a), b2)
            &&& spec_reply_ready(spec_after_encrypt(a), b2)
        }),
{
    let b = spec_receiver_view(shared_secret, bob_secret);
    let rk = a.send_ratchet_key;
    let b1 = spec_dh_step(b, rk, new_secret);
    let ck = b1.recv_chain_key.unwrap();
    assert(b1.skipped.union_prefer_right(spec_skip_entries(rk, ck, 0, 0)) =~= b1.skipped);
}

/// Reply: when `b` has stepped on `a`'s key and sends its first message
/// under a fresh ratchet key, `a` takes its own DH ratchet step and opens
/// it with the key `b` sealed it with; afterwards `b` sends in step and `a`
/// is ready to reply in turn. The X25519 agreement of the two current
/// ratchet secrets is required, as `x25519_diffie_hellman` states it; the
/// law fails when `b`'s fresh ratchet key is the one `a` already holds.
pub proof fn lemma_reply(a: RatchetView, b: RatchetView, new_secret: Seq<u8>)
    requires
        spec_reply_ready(a, b),
        a.recv_ratchet_key != Some(b.send_ratchet_key),
        forall|m: u32| !#[trigger] a.skipped.contains_key((b.send_ratchet_key, m)),
        spec_x25519_dh(a.send_ratchet_secret, b.send_ratchet_key) == spec_x25519_dh(
            b.send_ratchet_secret,
            a.send_ratchet_key,
        ),
    ensures
        ({
            let a2 = spec_decrypt_state(a, b.send_ratchet_key, 0, new_secret);
            &&& !spec_decrypt_overflows(a, b.send_ratchet_key, 0)
            &&& spec_decrypt_key(a, b.send_ratchet_key, 0, new_secret) == Some(spec_encrypt_key(b))
            &&& a2.send_ratchet_secret == new_secret
            &&& spec_in_step(spec_after_encrypt(b), a2)
            &&& spec_reply_ready(spec_after_encrypt(b), a2)
        }),
{
    let rk = b.send_ratchet_key;
    assert(!a.skipped.contains_key((rk, 0)));
    let a1 = spec_dh_step(a, rk, new_secret);
    let ck = a1.recv_chain_key.unwrap();
    assert(a1.skipped.union_prefer_right(spec_skip_entries(rk, ck, 0, 0)) =~= a1.skipped);
    let a2 = spec_decrypt_state(a, rk, 0, new_secret);
    assert forall|m: u32| m >= 1 implies !#[trigger] a2.skipped.contains_key((rk, m)) by {
        assert(!a.skipped.contains_key((rk, m)));
    }
}

/// Out of order: when `a` sends to `b` in step and `b` first receives the
/// message `k` places ahead, `b` opens it with the key `a` sealed it with
/// and keeps, for each message passed over, the key `a` sealed that one
/// with; a later `decrypt` of it uses the kept key.
pub proof fn lemma_out_of_order(a: RatchetView, b: RatchetView, k: u32, new_secret: Seq<u8>)
    requires
        spec_in_step(a, b),
        k <= MAX_SKIP,
        a.send_count + k < u32::MAX,
    ensures
        ({
            let rk = a.send_ratchet_key;
            let n = (a.send_count + k) as u32;
            let b2 = spec_decrypt_state(b, rk, n, new_secret);
            &&& !spec_decrypt_overflows(b, rk, n)
            &&& spec_decrypt_key(b, rk, n, new_secret) == Some(spec_encrypt_key(spec_encrypt_n(a, k as nat)))
            &&& forall|j: u32|
                j < k ==> #[trigger] b2.skipped.contains_key((rk, (a.send_count + j) as u32))
                    && b2.skipped[(rk, (a.send_count + j) as u32)] == spec_encrypt_key(spec_encrypt_n(a, j as nat))
            &&& spec_in_step(spec_encrypt_n(a, (k + 1) as nat), b2)
        }),
{
    let rk = a.send_ratchet_key;
    let n = (a.send_count + k) as u32;
    let ck = a.send_chain_key.unwrap();
    assert(!b.skipped.contains_key((rk, n)));
    lemma_encrypt_n(a, k as nat);
    let b2 = spec_decrypt_state(b, rk, n, new_secret);
    assert forall|j: u32| j < k implies #[trigger] b2.skipped.contains_key((rk, (a.send_count + j) as u32))
        && b2.skipped[(rk, (a.send_count + j) as u32)] == spec_encrypt_key(spec_encrypt_n(a, j as nat)) by {
        lemma_encrypt_n(a, j as nat);
    }
    lemma_encrypt_n(a, (k + 1) as nat);
    assert forall|m: u32| m >= a.send_count + k + 1 implies !#[trigger] b2.skipped.contains_key((rk, m)) by {
        assert(!b.skipped.contains_key((rk, m)));
    }
}


/// First chain out of order: a sender and a receiver freshly set up as in
/// `lemma_first_message`, where the receiver first gets the sender's message
/// `k` rather than its first. The receiver takes its DH ratchet step, opens
/// message `k` with the key the sender sealed it with, and keeps, for each
/// earlier message, the key the sender sealed that one with (a later
/// `decrypt` of it uses the kept key); afterwards the sender sends in step.
pub proof fn lemma_first_chain_out_of_order(
    shared_secret: Seq<u8>,
    a: RatchetView,
    bob_secret: Seq<u8>,
    k: u32,
    new_secret: Seq<u8>,
)
    requires
        a.send_ratchet_key == spec_x25519_public(a.send_ratchet_secret),
        a.send_chain_key is Some,
        (a.root_key, a.send_chain_key.unwrap()) == spec_dh_ratchet(
            shared_secret,
            spec_x25519_dh(a.send_ratchet_secret, spec_x25519_public(bob_secret)),
        ),
        a.send_count == 0,
        spec_x25519_dh(a.send_ratchet_secret, spec_x25519_public(bob_secret)) == spec_x25519_dh(
            bob_secret,
            a.send_ratchet_key,
        ),
        k <= MAX_SKIP,
    ensures
        ({
            let b = spec_receiver_view(shared_secret, bob_secret);
            let rk = a.send_ratchet_key;
            let b2 = spec_decrypt_state(b, rk, k, new_secret);
            &&& !spec_decrypt_overflows(b, rk, k)
            &&& spec_decrypt_key(b, rk, k, new_secret) == Some(spec_encrypt_key(spec_encrypt_n(a, k as nat)))
            &&& forall|j: u32|
                j < k ==> #[trigger] b2.skipped.contains_key((rk, j)) && b2.skipped[(rk, j)] == spec_encrypt_key(
                    spec_encrypt_n(a, j as nat),
                )
            &&& spec_in_step(spec_encrypt_n(a, (k + 1) as nat), b2)
        }),
{
    let b = spec_receiver_view(shared_secret, bob_secret);
    let rk = a.send_ratchet_key;
    let b1 = spec_dh_step(b, rk, new_secret);
    assert(spec_in_step(a, b1));
    assert(spec_decrypt_state(b, rk, k, new_secret) == spec_decrypt_state(b1, rk, k, new_secret));
    assert(spec_decrypt_key(b, rk, k, new_secret) == spec_decrypt_key(b1, rk, k, new_secret));
    lemma_out_of_order(a, b1, k, new_secret);
    assert((a.send_count + k) as u32 == k);
    let b2 = spec_decrypt_state(b, rk, k, new_secret);
    assert(!spec_decrypt_overflows(b, rk, k));
    assert(spec_decrypt_key(b, rk, k, new_secret) == Some(spec_encrypt_key(spec_encrypt_n(a, k as nat))));
    assert forall|j: u32| j < k implies #[trigger] b2.skipped.contains_key((rk, j)) && b2.skipped[(rk, j)]
        == spec_encrypt_key(spec_encrypt_n(a, j as nat)) by {
        assert((a.send_count + j) as u32 == j);
    }
    assert(spec_in_step(spec_encrypt_n(a, (k + 1) as nat), b2));
}


/// A first chain delivered out of order: the sender sends messages 0, 1
/// and 2; a freshly set-up receiver gets message 2, then 0, then 1, and
/// opens each with the key the sender sealed it with (the two earlier ones
/// from the keys kept when message 2 arrived).
pub proof fn lemma_first_chain_reordered(shared_secret: Seq<u8>, a: RatchetView, bob_secret: Seq<u8>, new_secret: Seq<u8>)
    requires
        a.send_ratchet_key == spec_x25519_public(a.send_ratchet_secret),
        a.send_chain_key is Some,
        (a.root_key, a.send_chain_key.unwrap()) == spec_dh_ratchet(
            shared_secret,
            spec_x25519_dh(a.send_ratchet_secret, spec_x25519_public(bob_secret)),
        ),
        a.send_count == 0,
        spec_x25519_dh(a.send_ratchet_secret, spec_x25519_public(bob_secret)) == spec_x25519_dh(
            bob_secret,
            a.send_ratchet_key,
        ),
    ensures
        ({
            let rk = a.send_ratchet_key;
            let b0 = spec_receiver_view(shared_secret, bob_secret);
            let b1 = spec_decrypt_state(b0, rk, 2, new_secret);
            let b2 = spec_decrypt_state(b1, rk, 0, new_secret);
            &&& spec_decrypt_key(b0, rk, 2, new_secret) == Some(spec_encrypt_key(spec_encrypt_n(a, 2)))
            &&& spec_decrypt_key(b1, rk, 0, new_secret) == Some(spec_encrypt_key(a))
            &&& spec_decrypt_key(b2, rk, 1, new_secret) == Some(spec_encrypt_key(spec_encrypt_n(a, 1)))
        }),
{
    let rk = a.send_ratchet_key;
    let b0 = spec_receiver_view(shared_secret, bob_secret);
    let b1 = spec_decrypt_state(b0, rk, 2, new_secret);
    lemma_first_chain_out_of_order(shared_secret, a, bob_secret, 2, new_secret);
    assert(b1.skipped.contains_key((rk, 0u32)));
    assert(b1.skipped.contains_key((rk, 1u32)));
    assert(spec_encrypt_n(a, 0) == a);
    let b2 = spec_decrypt_state(b1, rk, 0, new_secret);
    assert(b2.skipped == b1.skipped.remove((rk, 0u32)));
    assert(b2.skipped.contains_key((rk, 1u32)));
}

} // verus!
