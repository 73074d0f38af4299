//! Health: a current and a maximum value in milli-hit-points.
//!
//! The invariant `0 <= val <= max` is kept by every operation:
//! damage saturates at zero and healing saturates at the maximum.

use vstd::prelude::*;

verus! {

/// Largest maximum health the model can hold, in milli-hit-points.
pub const HEALTH_LIM: u64 = 12_000_000_000_000_000_000;

/// Largest single heal the model accepts, in milli-hit-points.
pub const HEAL_LIM: u64 = 1_000_000_000_000_000_000;

/// Current and maximum health, in milli-hit-points.
#[derive(Clone, Copy, Debug, PartialEq, Eq, Structural)]
pub struct Health {
    pub val: u64,
    pub max: u64,
}

/// Well-formed health: current never exceeds the maximum, and the
/// maximum stays within the model's range.
pub open spec fn health_wf(h: Health) -> bool {
    h.val <= h.max <= HEALTH_LIM
}

impl Health {
    /// A fresh, undamaged health pool.
    pub fn new(v: u64) -> (r: Health)
        requires
            v <= HEALTH_LIM,
        ensures
            r.val == v && r.max == v,
            health_wf(r),
    {
        Health { val: v, max: v }
    }

    /// Whether the holder still counts as alive.
    pub fn alive(&self) -> (r: bool)
        ensures
            r == (self.val > 0),
    {
        self.val > 0
    }

    /// Subtract `d` from the current value, saturating at zero.
    /// Returns true exactly when this blow emptied a previously
    /// non-empty pool.
    pub fn apply_damage(&mut self, d: u64) -> (killed: bool)
        ensures
            final(self).max == old(self).max,
            final(self).val == if d >= old(self).val {
                0u64
            } else {
                (old(self).val - d) as u64
            },
            final(self).val <= old(self).val,
            killed == (old(self).val > 0 && d >= old(self).val),
            health_wf(*old(self)) ==> health_wf(*final(self)),
    {
        if d >= self.val {
            let was_alive = self.val > 0;
            self.val = 0;
            was_alive
        } else {
            self.val = self.val - d;
            false
        }
    }

    /// Add `amt` to the current value, saturating at the maximum.
    pub fn heal(&mut self, amt: u64) -> (healed: u64)
        requires
            health_wf(*old(self)),
            amt <= HEAL_LIM,
        ensures
            final(self).max == old(self).max,
            final(self).val == if old(self).val + amt >= old(self).max {
                old(self).max
            } else {
                (old(self).val + amt) as u64
            },
            final(self).val >= old(self).val,
            health_wf(*final(self)),
            healed == final(self).val - old(self).val,
    {
        let before = self.val;
        if self.val + amt >= self.max {
            self.val = self.max;
        } else {
            self.val = self.val + amt;
        }
        self.val - before
    }

    /// Restore the pool to its maximum.
    pub fn restore_full(&mut self)
        ensures
            final(self).max == old(self).max,
            final(self).val == old(self).max,
            health_wf(*old(self)) ==> health_wf(*final(self)),
    {
        self.val = self.max;
    }

    /// Whether this pool is strictly more damaged, as a fraction of
    /// its maximum, than `other` (exact cross-multiplied comparison).
    pub fn more_damaged_than(&self, other: &Health) -> (r: bool)
        requires
            health_wf(*self),
            health_wf(*other),
        ensures
            r == ((self.val as int) * (other.max as int) < (other.val as int) * (self.max as int)),
    {
        proof {
            assert((self.val as int) * (other.max as int) <= (HEALTH_LIM as int) * (
            HEALTH_LIM as int)) by (nonlinear_arith)
                requires
                    0 <= self.val <= HEALTH_LIM,
                    0 <= other.max <= HEALTH_LIM,
            ;
            assert((other.val as int) * (self.max as int) <= (HEALTH_LIM as int) * (
            HEALTH_LIM as int)) by (nonlinear_arith)
                requires
                    0 <= other.val <= HEALTH_LIM,
                    0 <= self.max <= HEALTH_LIM,
            ;
        }
        (self.val as u128) * (other.max as u128) < (other.val as u128) * (self.max as u128)
    }
}

} // verus!
