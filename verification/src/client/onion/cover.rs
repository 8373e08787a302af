//! Cover traffic: dummy inbox fetches at random intervals, as often as the
//! power mode allows.

use vstd::prelude::*;
use crate::crypto::primitives::{random_bytes, random_in_range};

verus! {

/// Power-aware mode controlling cover traffic frequency.
#[derive(Debug, Clone, Copy, PartialEq, Eq, Structural)]
pub enum PowerMode {
    /// Desktop: cover fetches every 2 to 5 minutes.
    Desktop,
    /// Mobile foreground: every 5 to 10 minutes.
    MobileForeground,
    /// Mobile background: off.
    MobileBackground,
    /// Battery saver: off.
    BatterySaver,
}

/// How long a power mode with cover traffic off sleeps before it looks at
/// the mode again, in seconds.
pub const COVER_OFF_RECHECK_SECS: u64 = 60;

/// The range of seconds between cover fetches in a mode, if it sends any.
pub open spec fn spec_cover_range(mode: PowerMode) -> Option<(u64, u64)> {
    match mode {
        PowerMode::Desktop => Some((120, 300)),
        PowerMode::MobileForeground => Some((300, 600)),
        _ => None,
    }
}

/// The wait before the next cover fetch, in seconds, drawn uniformly from
/// the mode's range; `None` when the mode sends no cover traffic.
pub fn next_cover_interval(mode: PowerMode) -> (r: Option<u64>)
    ensures
        r is Some <==> spec_cover_range(mode) is Some,
        r matches Some(secs) ==> spec_cover_range(mode).unwrap().0 <= secs <= spec_cover_range(mode).unwrap().1,
{
    match mode {
        PowerMode::Desktop => Some(random_in_range(120, 300)),
        PowerMode::MobileForeground => Some(random_in_range(300, 600)),
        PowerMode::MobileBackground => None,
        PowerMode::BatterySaver => None,
    }
}

/// One to three random 32-byte dummy inbox ids for a round of cover fetches.
pub fn cover_dummy_ids() -> (ids: Vec<Vec<u8>>)
    ensures
        1 <= ids@.len() <= 3,
        forall|i: int| 0 <= i < ids@.len() ==> (#[trigger] ids@[i])@.len() == 32,
{
    let count = random_in_range(1, 3);
    let mut ids: Vec<Vec<u8>> = Vec::new();
    let mut i: u64 = 0;
    while i < count
        invariant
            1 <= count <= 3,
            i <= count,
            ids@.len() == i,
            forall|j: int| 0 <= j < ids@.len() ==> (#[trigger] ids@[j])@.len() == 32,
        decreases count - i,
    {
        let id: [u8; 32] = random_bytes();
        ids.push(vstd::slice::slice_to_vec(id.as_slice()));
        i = i + 1;
    }
    ids
}


/// What the cover loop does next.
#[derive(Debug, Clone, Copy, PartialEq, Eq, Structural)]
pub enum CoverStep {
    /// Wait this many seconds, then send a round of dummy fetches.
    Fetch { wait_secs: u64 },
    /// Cover traffic is off: wait this many seconds, then look at the mode
    /// again.
    Recheck { wait_secs: u64 },
}

/// Background cover traffic: dummy inbox fetches at random intervals, so
/// that real fetches cannot be told apart by their timing. The loop that
/// sleeps and fetches is the caller's; it asks `next_step` each time round.
pub struct CoverTraffic {
    pub mode: PowerMode,
}

impl CoverTraffic {
    pub fn new(mode: PowerMode) -> (c: Self)
        ensures
            c.mode == mode,
    {
        CoverTraffic { mode }
    }

    pub fn set_mode(&mut self, mode: PowerMode)
        ensures
            final(self).mode == mode,
    {
        self.mode = mode;
    }

    /// The next step of the loop under the current mode: a fetch after a
    /// wait drawn from the mode's range, or, when the mode sends no cover
    /// traffic, a recheck after a minute.
    pub fn next_step(&self) -> (step: CoverStep)
        ensures
            match spec_cover_range(self.mode) {
                Some((lo, hi)) => step matches CoverStep::Fetch { wait_secs } && lo <= wait_secs <= hi,
                None => step == CoverStep::Recheck { wait_secs: COVER_OFF_RECHECK_SECS },
            },
    {
        match next_cover_interval(self.mode) {
            Some(secs) => CoverStep::Fetch { wait_secs: secs },
            None => CoverStep::Recheck { wait_secs: COVER_OFF_RECHECK_SECS },
        }
    }
}

} // verus!
