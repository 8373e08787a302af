//! The relay client's handling of frames while it waits for a response.

use vstd::prelude::*;

verus! {

/// The first payload a relay connection sends to switch to onion mode.
pub const ONION_MODE_GREETING: [u8; 5] = [79, 78, 73, 79, 78];

/// What to do with a frame received while waiting for a response.
#[derive(Debug, Clone, Copy, PartialEq, Eq, Structural)]
pub enum FrameAction {
    /// Answer a keep-alive ping with a pong and keep waiting.
    ReplyPong,
    /// Ignore a pong and keep waiting.
    Skip,
    /// The frame's payload is the response.
    Deliver,
}

/// Pings are answered, pongs skipped, anything else is the response.
pub fn relay_frame_action(is_ping: bool, is_pong: bool) -> (a: FrameAction)
    ensures
        a == (if is_ping { FrameAction::ReplyPong } else if is_pong { FrameAction::Skip } else { FrameAction::Deliver }),
{
    if is_ping {
        FrameAction::ReplyPong
    } else if is_pong {
        FrameAction::Skip
    } else {
        FrameAction::Deliver
    }
}

} // verus!
