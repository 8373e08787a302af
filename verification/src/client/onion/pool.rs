//! The pool of warm relay circuits: how many to keep, which one a fetch
//! takes, and what happens to it afterwards.
//!
//! Connections and tasks are the caller's; the pool holds the warm
//! circuits (of type `T`) and makes the decisions.

use vstd::prelude::*;

verus! {

/// Warm circuits kept by default.
pub const DEFAULT_TARGET_COUNT: usize = 3;

/// What `acquire` hands out.
pub enum Acquired<T> {
    /// A warm relay circuit.
    Relay(T),
    /// No circuit is warm: fall back to a direct shadow session.
    Direct,
}

/// Warm relay circuits, up to a target count.
pub struct TransportPool<T> {
    pub circuits: Vec<T>,
    /// Whether the gateway offers a relay at all.
    pub has_relay: bool,
    pub target_count: usize,
}

impl<T> TransportPool<T> {
    /// An empty pool aiming at three warm circuits.
    pub fn new(has_relay: bool) -> (p: Self)
        ensures
            p.circuits@.len() == 0,
            p.has_relay == has_relay,
            p.target_count == DEFAULT_TARGET_COUNT,
    {
        TransportPool { circuits: Vec::new(), has_relay, target_count: DEFAULT_TARGET_COUNT }
    }

    /// The same pool aiming at `target_count` circuits, at least one.
    pub fn with_target_count(self, target_count: usize) -> (p: Self)
        ensures
            p.circuits@ == self.circuits@,
            p.has_relay == self.has_relay,
            p.target_count == (if target_count < 1 { 1 } else { target_count }),
    {
        let target_count = if target_count < 1 { 1 } else { target_count };
        TransportPool { circuits: self.circuits, has_relay: self.has_relay, target_count }
    }

    /// How many circuits to warm when the pool starts: the target when a
    /// relay is offered, none otherwise.
    pub fn initial_warm_count(&self) -> (n: usize)
        ensures
            n == (if self.has_relay { self.target_count } else { 0 }),
    {
        if self.has_relay { self.target_count } else { 0 }
    }

    /// Adds a freshly warmed circuit.
    pub fn add_warmed(&mut self, circuit: T)
        ensures
            final(self).circuits@ == old(self).circuits@.push(circuit),
            final(self).has_relay == old(self).has_relay,
            final(self).target_count == old(self).target_count,
    {
        self.circuits.push(circuit);
    }

    /// Takes the most recently warmed circuit, if any, and says whether to
    /// warm another: when the pool drops below its target, or is empty, and
    /// a relay is offered.
    pub fn acquire(&mut self) -> (r: (Acquired<T>, bool))
        ensures
            final(self).has_relay == old(self).has_relay,
            final(self).target_count == old(self).target_count,
            old(self).circuits@.len() == 0 ==> r.0 is Direct && r.1 == old(self).has_relay
                && final(self).circuits@ == old(self).circuits@,
            old(self).circuits@.len() > 0 ==> r.0 == Acquired::Relay(old(self).circuits@.last())
                && final(self).circuits@ == old(self).circuits@.drop_last()
                && r.1 == (final(self).circuits@.len() < old(self).target_count && old(self).has_relay),
    {
        match self.circuits.pop() {
            Some(c) => {
                let replenish = self.circuits.len() < self.target_count && self.has_relay;
                (Acquired::Relay(c), replenish)
            },
            None => (Acquired::Direct, self.has_relay),
        }
    }

    /// Gives a circuit back after use: kept while the pool is below its
    /// target, otherwise returned to be closed.
    pub fn release(&mut self, circuit: T) -> (r: Option<T>)
        ensures
            final(self).has_relay == old(self).has_relay,
            final(self).target_count == old(self).target_count,
            old(self).circuits@.len() < old(self).target_count ==> r is None
                && final(self).circuits@ == old(self).circuits@.push(circuit),
            old(self).circuits@.len() >= old(self).target_count ==> r == Some(circuit)
                && final(self).circuits@ == old(self).circuits@,
    {
        if self.circuits.len() < self.target_count {
            self.circuits.push(circuit);
            None
        } else {
            Some(circuit)
        }
    }

    /// Number of warm relay circuits.
    pub fn relay_ready_count(&self) -> (n: usize)
        ensures
            n == self.circuits@.len(),
    {
        self.circuits.len()
    }
}


/// A circuit taken by `acquire` and given back by `release` goes back into
/// the pool, which is then as before, whenever the pool held no more circuits
/// than its target.
pub proof fn lemma_acquire_then_release<T>(circuits: Seq<T>, target_count: usize)
    requires
        0 < circuits.len() <= target_count,
    ensures
        circuits.drop_last().len() < target_count,
        circuits.drop_last().push(circuits.last()) == circuits,
{
    assert(circuits.drop_last().push(circuits.last()) =~= circuits);
}

} // verus!
