//! Timing of pipelined inbox fetches: per-request delays with one or two
//! longer pauses at random positions, against timing fingerprinting.
//!
//! The per-request base delays are drawn from a truncated exponential
//! distribution by the caller; this module adds the pauses.

use vstd::prelude::*;
use crate::crypto::primitives::random_in_range;

verus! {

/// Shortest extra pause, in milliseconds.
pub const PAUSE_MIN_MS: u64 = 300;

/// Longest extra pause, in milliseconds.
pub const PAUSE_MAX_MS: u64 = 1000;

/// The schedule for `base_delays_ms.len()` pipelined fetches: the base
/// delays, with one or two pauses of 300 to 1000 ms added at random
/// positions (possibly the same one).
pub fn pipeline_schedule(base_delays_ms: Vec<u64>) -> (delays: Vec<u64>)
    requires
        forall|i: int| 0 <= i < base_delays_ms@.len() ==> base_delays_ms@[i] <= u64::MAX - 2 * PAUSE_MAX_MS,
    ensures
        delays@.len() == base_delays_ms@.len(),
        forall|i: int|
            0 <= i < delays@.len() ==> base_delays_ms@[i] <= #[trigger] delays@[i] <= base_delays_ms@[i] + 2 * PAUSE_MAX_MS,
        delays@.len() > 0 ==> exists|i: int|
            0 <= i < delays@.len() && #[trigger] delays@[i] >= base_delays_ms@[i] + PAUSE_MIN_MS,
{
    let n = base_delays_ms.len();
    if n == 0 {
        return base_delays_ms;
    }
    let ghost base = base_delays_ms@;
    let mut delays = base_delays_ms;
    let pause_count = random_in_range(1, 2);
    let mut k: u64 = 0;
    let ghost mut first: int = 0;
    while k < pause_count
        invariant
            1 <= pause_count <= 2,
            k <= pause_count,
            n == base.len(),
            n > 0,
            delays@.len() == n,
            forall|i: int| 0 <= i < n ==> base[i] <= u64::MAX - 2 * PAUSE_MAX_MS,
            forall|i: int| 0 <= i < n ==> base[i] <= #[trigger] delays@[i] <= base[i] + k * PAUSE_MAX_MS,
            k > 0 ==> 0 <= first < n && delays@[first] >= base[first] + PAUSE_MIN_MS,
        decreases pause_count - k,
    {
        let pos = random_in_range(0, (n - 1) as u64) as usize;
        let extra = random_in_range(PAUSE_MIN_MS, PAUSE_MAX_MS);
        let d = delays[pos] + extra;
        delays.set(pos, d);
        proof {
            if k == 0 {
                first = pos as int;
            }
        }
        k = k + 1;
    }
    delays
}

} // verus!
