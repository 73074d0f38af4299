//! Angular approach with shortest-path wraparound.
//!
//! Headings are measured in integer angle units: a half turn is
//! `HALF_TURN` units, so a full circle is `TURN` units.  The canonical
//! range of a heading is `(-HALF_TURN, HALF_TURN]`, mirroring the
//! usual `(-pi, pi]` convention for radians.

use vstd::prelude::*;
use vstd::arithmetic::div_mod::{
    lemma_fundamental_div_mod, lemma_mod_division_less_than_divisor, lemma_mod_multiples_vanish,
    lemma_small_mod,
};

verus! {

/// Number of angle units in a half turn.
pub const HALF_TURN: i64 = 1_000_000;

/// Number of angle units in a full turn.
pub const TURN: i64 = 2_000_000;

/// Largest magnitude of an angle the library accepts as an input;
/// keeps all intermediate arithmetic inside `i64`.
pub const ANGLE_LIM: i64 = 1_000_000_000_000;

/// Offset (a multiple of `TURN`) used to shift values into the
/// non-negative range before taking a remainder.
pub const ANGLE_SHIFT: i64 = 4_000_000_000_000;

/// A canonical angle lies in `(-HALF_TURN, HALF_TURN]`.
pub open spec fn angle_canonical(a: int) -> bool {
    -HALF_TURN < a <= HALF_TURN
}

/// Absolute value.
pub open spec fn abs_val(a: int) -> int {
    if a >= 0 {
        a
    } else {
        -a
    }
}

/// The canonical representative of an angle: the unique value in
/// `(-HALF_TURN, HALF_TURN]` that differs from `a` by a whole number
/// of turns.
pub open spec fn norm_ang(a: int) -> int {
    ((a + HALF_TURN - 1) % (TURN as int)) - (HALF_TURN - 1)
}

/// The signed shortest arc from heading `from` to heading `to`.
pub open spec fn ang_diff(from: int, to: int) -> int {
    norm_ang(to - from)
}

/// `norm_ang` always lands in the canonical range.
pub proof fn lemma_norm_range(a: int)
    ensures
        angle_canonical(norm_ang(a)),
{
    lemma_mod_division_less_than_divisor(a + HALF_TURN - 1, TURN as int);
}

/// A canonical angle is its own canonical representative.
pub proof fn lemma_norm_identity(a: int)
    requires
        angle_canonical(a),
    ensures
        norm_ang(a) == a,
{
    lemma_small_mod((a + HALF_TURN - 1) as nat, TURN as nat);
}

/// Adding whole turns does not change the canonical representative.
pub proof fn lemma_norm_shift(a: int, k: int)
    ensures
        norm_ang(a + (TURN as int) * k) == norm_ang(a),
{
    lemma_mod_multiples_vanish(k, a + HALF_TURN - 1, TURN as int);
    assert((TURN as int) * k + (a + HALF_TURN - 1) == (a + (TURN as int) * k) + HALF_TURN - 1);
}

/// `norm_ang(a)` differs from `a` by `TURN` times the witness
/// returned here.
pub proof fn lemma_norm_decompose(a: int) -> (k: int)
    ensures
        norm_ang(a) == a - (TURN as int) * k,
{
    lemma_fundamental_div_mod(a + HALF_TURN - 1, TURN as int);
    (a + HALF_TURN - 1) / (TURN as int)
}

/// Normalizing the subtrahend first does not change a difference's
/// canonical representative.
pub proof fn lemma_norm_compose(b: int, c: int)
    ensures
        norm_ang(b - norm_ang(c)) == norm_ang(b - c),
{
    let k = lemma_norm_decompose(c);
    assert(b - norm_ang(c) == (b - c) + (TURN as int) * k);
    lemma_norm_shift(b - c, k);
}

/// Normalize an angle into the canonical range `(-HALF_TURN, HALF_TURN]`.
pub fn norm_angle(x: i64) -> (r: i64)
    requires
        -2 * ANGLE_LIM <= x <= 2 * ANGLE_LIM,
    ensures
        r == norm_ang(x as int),
        angle_canonical(r as int),
{
    proof {
        lemma_norm_range(x as int);
    }
    let y: i64 = x + (ANGLE_SHIFT + HALF_TURN - 1);
    let m: u64 = (y as u64) % (TURN as u64);
    proof {
        lemma_mod_multiples_vanish(2_000_000, x as int + HALF_TURN - 1, TURN as int);
        assert((TURN as int) * 2_000_000 + (x as int + HALF_TURN - 1) == y as int);
        lemma_mod_division_less_than_divisor(x as int + HALF_TURN - 1, TURN as int);
    }
    (m as i64) - (HALF_TURN - 1)
}

/// What one rotation step produces: the next heading and whether the
/// heading has reached the desired angle.
///
/// If the shortest signed arc from `current` to `desired` is shorter
/// than `step`, the result is `desired` itself and the `aligned` flag
/// is set; otherwise the heading moves by exactly `step` along the
/// shorter arc and the flag is clear.
pub open spec fn approach_spec(current: int, desired: int, step: int) -> (int, bool) {
    let d = ang_diff(current, desired);
    if abs_val(d) < step {
        (desired, true)
    } else if d < 0 {
        (norm_ang(current - step), false)
    } else {
        (norm_ang(current + step), false)
    }
}

/// Rotate `current` toward `desired` by at most `step`, wrapping
/// along the shorter arc; returns the next heading and whether the
/// heading is now aligned with `desired`.
pub fn approach(current: i64, desired: i64, step: i64) -> (r: (i64, bool))
    requires
        0 <= step <= ANGLE_LIM,
        -ANGLE_LIM <= current <= ANGLE_LIM,
        -ANGLE_LIM <= desired <= ANGLE_LIM,
    ensures
        (r.0 as int, r.1) == approach_spec(current as int, desired as int, step as int),
{
    let d = norm_angle(desired - current);
    proof {
        lemma_norm_range(desired - current);
    }
    let ad = if d < 0 {
        -d
    } else {
        d
    };
    if ad < step {
        (desired, true)
    } else if d < 0 {
        (norm_angle(current - step), false)
    } else {
        (norm_angle(current + step), false)
    }
}

/// Law: a rotation step never overshoots.  When the heading is not
/// yet aligned it moves by exactly `step` along the shorter arc, so
/// the angular distance to the desired heading shrinks by exactly
/// `step` and its sign is preserved; when aligned, the distance drops
/// to zero.  In both cases the distance never increases.
pub proof fn lemma_approach_progress(current: int, desired: int, step: int)
    requires
        0 < step,
        angle_canonical(current),
        angle_canonical(desired),
    ensures
        ({
            let (next, aligned) = approach_spec(current, desired, step);
            let d = ang_diff(current, desired);
            let d2 = ang_diff(next, desired);
            &&& abs_val(d2) <= abs_val(d)
            &&& aligned ==> next == desired && d2 == 0
            &&& !aligned ==> abs_val(d2) == abs_val(d) - step
            &&& !aligned ==> (d >= 0 ==> d2 >= 0) && (d <= 0 ==> d2 <= 0)
        }),
{
    let (next, aligned) = approach_spec(current, desired, step);
    let d = ang_diff(current, desired);
    lemma_norm_range(desired - current);
    if aligned {
        assert(norm_ang(desired - desired) == 0) by {
            lemma_norm_identity(0);
        }
    } else if d < 0 {
        lemma_norm_compose(desired as int, current - step);
        assert(desired - (current - step) == (desired - current) + step);
        lemma_norm_compose(desired as int, desired - current);
        assert(norm_ang((desired - current) + step) == norm_ang(d + step)) by {
            let k = lemma_norm_decompose(desired - current);
            lemma_norm_shift(d + step, k);
            assert((desired - current) + step == (d + step) + (TURN as int) * k);
        }
        lemma_norm_identity(d + step);
    } else {
        lemma_norm_compose(desired as int, current + step);
        assert(desired - (current + step) == (desired - current) - step);
        assert(norm_ang((desired - current) - step) == norm_ang(d - step)) by {
            let k = lemma_norm_decompose(desired - current);
            lemma_norm_shift(d - step, k);
            assert((desired - current) - step == (d - step) + (TURN as int) * k);
        }
        lemma_norm_identity(d - step);
    }
}

/// Law: except on the knife edge where the remaining arc equals the
/// step exactly, the `aligned` flag is equivalent to the next heading
/// being the desired heading.
pub proof fn lemma_approach_aligned_iff(current: int, desired: int, step: int)
    requires
        0 < step,
        angle_canonical(current),
        angle_canonical(desired),
        abs_val(ang_diff(current, desired)) != step,
    ensures
        ({
            let (next, aligned) = approach_spec(current, desired, step);
            aligned <==> next == desired
        }),
{
    let (next, aligned) = approach_spec(current, desired, step);
    let d = ang_diff(current, desired);
    let d2 = ang_diff(next, desired);
    lemma_approach_progress(current, desired, step);
    if !aligned {
        assert(abs_val(d2) == abs_val(d) - step > 0);
        assert(norm_ang(desired - desired) == 0) by {
            lemma_norm_identity(0);
        }
        assert(next != desired);
    }
}

} // verus!
