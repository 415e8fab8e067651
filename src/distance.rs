//! Forward progress of the player.

use vstd::prelude::*;

verus! {

/// Distance units per world unit: distances are kept in tenths.
pub const TENTHS_PER_UNIT: u64 = 10;

/// How far the player moves forward in one simulation step (0.1 units).
/// The step is a fixed amount per tick, not scaled by elapsed time.
pub const ADVANCE_AMOUNT_PER_STEP: u64 = 1;

/// The distance after advancing `n` times by `step` from `start`.
pub open spec fn distance_after_steps(start: int, step: int, n: nat) -> int
    decreases n,
{
    if n == 0 {
        start
    } else {
        distance_after_steps(start, step, (n - 1) as nat) + step
    }
}

/// The accumulated forward distance of the player, in tenths.
pub struct DistanceTracker {
    pub distance_traveled: u64,
}

impl DistanceTracker {
    pub fn new() -> (r: DistanceTracker)
        ensures
            r.distance_traveled == 0,
    {
        DistanceTracker { distance_traveled: 0 }
    }

    /// Moves the player forward by `step`.
    pub fn advance(&mut self, step: u64)
        requires
            old(self).distance_traveled + step <= u64::MAX,
        ensures
            final(self).distance_traveled == old(self).distance_traveled + step,
    {
        self.distance_traveled = self.distance_traveled + step;
    }
}

/// Advancing is additive and never goes back: `n` advances by `step` move the
/// player exactly `n * step` forward of where it started.
pub proof fn lemma_advance_is_additive(start: int, step: int, n: nat)
    requires
        step >= 0,
    ensures
        distance_after_steps(start, step, n) == start + n * step,
        distance_after_steps(start, step, n) >= start,
    decreases n,
{
    if n > 0 {
        let m = (n - 1) as nat;
        lemma_advance_is_additive(start, step, m);
        assert(distance_after_steps(start, step, n) == distance_after_steps(start, step, m) + step);
        assert(start + m * step + step == start + n * step) by (nonlinear_arith)
            requires
                m + 1 == n,
        ;
    } else {
        assert(n * step == 0) by (nonlinear_arith)
            requires
                n == 0,
        ;
    }
    assert(n * step >= 0) by (nonlinear_arith)
        requires
            step >= 0,
    ;
}

} // verus!
