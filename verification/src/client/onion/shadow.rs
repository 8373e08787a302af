//! Shadow sessions: ephemeral, unlinkable gateway sessions with a request
//! budget and a lifetime.
//!
//! The session's connection is the caller's; this type keeps the session's
//! identity and budget and decides whether another request may go out.

use vstd::prelude::*;
use crate::common::error::{Error, Result};
use crate::common::types::PeerId;

verus! {

/// Requests a shadow session may make.
pub const MAX_REQUESTS: u32 = 30;

/// Lifetime of a shadow session, in milliseconds (10 minutes).
pub const MAX_TTL_MS: u64 = 600_000;

/// Time allowed for the session's `SESSION_INIT`, in milliseconds.
pub const INIT_TIMEOUT_MS: u64 = 10_000;

/// An ephemeral gateway session over connection `C`.
pub struct ShadowSession<C> {
    pub conn: C,
    pub peer_id: PeerId,
    pub request_count: u32,
}

impl<C> ShadowSession<C> {
    /// Whether the session is past its budget or lifetime, `elapsed_ms`
    /// after it was opened.
    pub open spec fn spec_expired(&self, elapsed_ms: u64) -> bool {
        self.request_count >= MAX_REQUESTS || elapsed_ms > MAX_TTL_MS
    }

    /// A new session with no requests made.
    pub fn new(conn: C, peer_id: PeerId) -> (s: Self)
        ensures
            s.conn == conn,
            s.peer_id == peer_id,
            s.request_count == 0,
    {
        ShadowSession { conn, peer_id, request_count: 0 }
    }

    /// Whether the session has exceeded its lifetime or request budget.
    pub fn is_expired(&self, elapsed_ms: u64) -> (r: bool)
        ensures
            r == self.spec_expired(elapsed_ms),
    {
        self.request_count >= MAX_REQUESTS || elapsed_ms > MAX_TTL_MS
    }

    /// Requests left before the budget is spent.
    pub fn remaining_requests(&self) -> (n: u32)
        ensures
            n == (if self.request_count >= MAX_REQUESTS { 0 } else { MAX_REQUESTS - self.request_count }),
    {
        MAX_REQUESTS.saturating_sub(self.request_count)
    }

    /// The session's ephemeral peer id.
    pub fn peer_id(&self) -> (p: &PeerId)
        ensures
            *p == self.peer_id,
    {
        &self.peer_id
    }

    /// Counts a request about to be sent, or refuses it (a transport error)
    /// when the session has expired; a refused request is not counted.
    pub fn begin_request(&mut self, elapsed_ms: u64) -> (r: Result<()>)
        ensures
            old(self).spec_expired(elapsed_ms) ==> r is Err && r->Err_0 is Transport
                && final(self).request_count == old(self).request_count,
            !old(self).spec_expired(elapsed_ms) ==> r is Ok && final(self).request_count == old(self).request_count + 1,
            final(self).peer_id == old(self).peer_id,
            final(self).conn == old(self).conn,
    {
        if self.is_expired(elapsed_ms) {
            return Err(Error::Transport("shadow session expired".to_string()));
        }
        self.request_count = self.request_count + 1;
        Ok(())
    }
}

} // verus!
