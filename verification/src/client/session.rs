//! An ephemeral client session: a freshly generated identity and its peer id.

use vstd::prelude::*;
use crate::common::types::PeerId;
use crate::crypto::identity::IdentityKeyPair;
use crate::crypto::primitives::spec_ed25519_public;

verus! {

/// A client session backed by a fresh identity key pair.
pub struct ClientSession {
    pub identity: IdentityKeyPair,
    pub peer_id: PeerId,
}

impl ClientSession {
    /// A new ephemeral identity and the peer id derived from it.
    pub fn new() -> (s: Self)
        ensures
            s.peer_id.0@ == spec_ed25519_public(s.identity.signing_key@),
    {
        let identity = IdentityKeyPair::generate();
        let peer_id = identity.peer_id();
        ClientSession { identity, peer_id }
    }

    pub fn peer_id(&self) -> (p: &PeerId)
        ensures
            *p == self.peer_id,
    {
        &self.peer_id
    }
}

impl Default for ClientSession {
    fn default() -> (s: Self)
        ensures
            s.peer_id.0@ == spec_ed25519_public(s.identity.signing_key@),
    {
        ClientSession::new()
    }
}

} // verus!
