//! Fixed-point planar geometry: positions, velocities, motion
//! integration, distances, box overlap, and the direction kernels
//! (sine approximation and bearing) used by all aiming logic.
//!
//! Lengths are measured in integer position units (one thousand units
//! per world pixel), time in milliseconds, velocities in units per
//! second.  Unit-interval quantities (sine values) are scaled by
//! `SCALE`.

use crate::angle::{angle_canonical, norm_ang, norm_angle, HALF_TURN};
use vstd::prelude::*;

verus! {

/// Scale of unit-interval quantities: this value stands for 1.0.
pub const SCALE: i64 = 1_000_000;

/// A quarter turn, in angle units.
pub const QUARTER_TURN: i64 = 500_000;

/// An eighth of a turn, in angle units.
pub const EIGHTH_TURN: i64 = 250_000;

/// Largest coordinate magnitude the playfield model can hold.
pub const COORD_LIM: i64 = 1_000_000_000_000;

/// Largest velocity magnitude, in units per second.
pub const VEL_LIM: i64 = 1_000_000_000;

/// Largest tick length, in milliseconds.
pub const DT_MAX: i64 = 3_600_000;

/// Largest half-extent of a collision box, in position units.
pub const SIZE_LIM: i64 = 1_000_000_000;

/// A planar vector in fixed-point position units.
#[derive(Clone, Copy, Debug, PartialEq, Eq, Structural)]
pub struct Vec2I {
    pub x: i64,
    pub y: i64,
}

/// Absolute value.
pub open spec fn iabs(a: int) -> int {
    if a >= 0 {
        a
    } else {
        -a
    }
}

/// Both coordinates lie within the playfield model.
pub open spec fn in_coord_range(v: Vec2I) -> bool {
    iabs(v.x as int) <= COORD_LIM && iabs(v.y as int) <= COORD_LIM
}

/// Both components lie within the velocity range.
pub open spec fn in_vel_range(v: Vec2I) -> bool {
    iabs(v.x as int) <= VEL_LIM && iabs(v.y as int) <= VEL_LIM
}

/// Clamp a value into `[-lim, lim]`.
pub open spec fn clamp_i(v: int, lim: int) -> int {
    if v < -lim {
        -lim
    } else if v > lim {
        lim
    } else {
        v
    }
}

/// Magnitude-truncating scaled product: `a * b / den` computed on
/// magnitudes, so that the result rounds toward zero.
pub open spec fn mul_div_trunc(a: int, b: int, den: int) -> int {
    let p = iabs(a) * iabs(b) / den;
    if (a < 0) != (b < 0) {
        -p
    } else {
        p
    }
}

/// One axis of motion integration: advance `p` by `v` units per
/// second over `dt` milliseconds, clamped to the playfield model.
pub open spec fn motion_axis(p: int, v: int, dt: int) -> int {
    clamp_i(p + mul_div_trunc(v, dt, 1000), COORD_LIM as int)
}

/// Advance a position by velocity times elapsed time.
pub open spec fn motion_spec(pos: Vec2I, vel: Vec2I, dt: int) -> Vec2I {
    Vec2I {
        x: motion_axis(pos.x as int, vel.x as int, dt) as i64,
        y: motion_axis(pos.y as int, vel.y as int, dt) as i64,
    }
}

fn clamp_coord(v: i64) -> (r: i64)
    ensures
        r == clamp_i(v as int, COORD_LIM as int),
{
    if v < -COORD_LIM {
        -COORD_LIM
    } else if v > COORD_LIM {
        COORD_LIM
    } else {
        v
    }
}

fn step_axis(p: i64, v: i64, dt: i64) -> (r: i64)
    requires
        iabs(p as int) <= COORD_LIM,
        iabs(v as int) <= VEL_LIM,
        0 <= dt <= DT_MAX,
    ensures
        r == motion_axis(p as int, v as int, dt as int),
        iabs(r as int) <= COORD_LIM,
{
    let mv: u64 = if v < 0 {
        (-v) as u64
    } else {
        v as u64
    };
    proof {
        assert(mv * dt <= VEL_LIM * DT_MAX) by (nonlinear_arith)
            requires
                0 <= mv <= VEL_LIM,
                0 <= dt <= DT_MAX,
        ;
    }
    let prod: u64 = mv * (dt as u64) / 1000;
    let delta: i64 = if v < 0 {
        -(prod as i64)
    } else {
        prod as i64
    };
    clamp_coord(p + delta)
}

/// Advance `pos` by `vel` units per second over `dt` milliseconds,
/// axis by axis, clamped to the playfield model.
pub fn integrate_motion(pos: Vec2I, vel: Vec2I, dt: i64) -> (r: Vec2I)
    requires
        in_coord_range(pos),
        in_vel_range(vel),
        0 <= dt <= DT_MAX,
    ensures
        r == motion_spec(pos, vel, dt as int),
        in_coord_range(r),
{
    Vec2I { x: step_axis(pos.x, vel.x, dt), y: step_axis(pos.y, vel.y, dt) }
}

/// Squared Euclidean distance between two points.
pub open spec fn dist_sq(a: Vec2I, b: Vec2I) -> int {
    let dx = a.x - b.x;
    let dy = a.y - b.y;
    dx * dx + dy * dy
}

/// Squared Euclidean distance, computed exactly in wide arithmetic.
pub fn distance_sq(a: Vec2I, b: Vec2I) -> (r: u128)
    requires
        in_coord_range(a),
        in_coord_range(b),
    ensures
        r == dist_sq(a, b),
{
    let dx: i128 = a.x as i128 - b.x as i128;
    let dy: i128 = a.y as i128 - b.y as i128;
    proof {
        assert(0 <= dx * dx <= 4_000_000_000_000_000_000_000_000) by (nonlinear_arith)
            requires
                iabs(dx as int) <= 2 * COORD_LIM,
        ;
        assert(0 <= dy * dy <= 4_000_000_000_000_000_000_000_000) by (nonlinear_arith)
            requires
                iabs(dy as int) <= 2 * COORD_LIM,
        ;
    }
    (dx * dx + dy * dy) as u128
}

/// Strict overlap of two axis-aligned boxes centred at `a` and `b`
/// with full widths `sa` and `sb`.
pub open spec fn boxes_overlap(a: Vec2I, sa: int, b: Vec2I, sb: int) -> bool {
    &&& 2 * iabs(a.x - b.x) < sa + sb
    &&& 2 * iabs(a.y - b.y) < sa + sb
}

/// Axis-aligned bounding-box overlap test.
pub fn collide_aabb(a: Vec2I, sa: i64, b: Vec2I, sb: i64) -> (r: bool)
    requires
        in_coord_range(a),
        in_coord_range(b),
        0 <= sa <= SIZE_LIM,
        0 <= sb <= SIZE_LIM,
    ensures
        r == boxes_overlap(a, sa as int, b, sb as int),
{
    let dx: i64 = if a.x >= b.x {
        a.x - b.x
    } else {
        b.x - a.x
    };
    let dy: i64 = if a.y >= b.y {
        a.y - b.y
    } else {
        b.y - a.y
    };
    2 * dx < sa + sb && 2 * dy < sa + sb
}

/// Quarter-wave parabola: the sine substitute on `[0, HALF_TURN]`,
/// scaled by `SCALE`.  Exact at 0, `QUARTER_TURN` and `HALF_TURN`.
pub open spec fn para(x: int) -> int {
    4 * x * (HALF_TURN - x) * SCALE / (HALF_TURN as int * HALF_TURN as int)
}

/// Sine of an angle (in angle units), scaled by `SCALE`: the odd,
/// half-turn-periodic extension of the quarter-wave parabola.
pub open spec fn sin_fp_spec(a: int) -> int {
    let c = norm_ang(a);
    if c >= 0 {
        para(c)
    } else {
        -para(-c)
    }
}

/// Cosine of an angle, scaled by `SCALE`: the sine a quarter turn ahead.
pub open spec fn cos_fp_spec(a: int) -> int {
    sin_fp_spec(a + QUARTER_TURN)
}

proof fn lemma_para_range(x: int)
    requires
        0 <= x <= HALF_TURN,
    ensures
        0 <= para(x) <= SCALE,
{
    assert(0 <= 4 * x * (HALF_TURN - x) <= HALF_TURN as int * HALF_TURN as int)
        by (nonlinear_arith)
        requires
            0 <= x <= HALF_TURN,
    ;
    assert(0 <= 4 * x * (HALF_TURN - x) * SCALE <= HALF_TURN as int * HALF_TURN as int * SCALE)
        by (nonlinear_arith)
        requires
            0 <= 4 * x * (HALF_TURN - x) <= HALF_TURN as int * HALF_TURN as int,
    ;
}

/// The sine value always lies in `[-SCALE, SCALE]`.
pub proof fn lemma_sin_range(a: int)
    ensures
        -SCALE <= sin_fp_spec(a) <= SCALE,
{
    crate::angle::lemma_norm_range(a);
    let c = norm_ang(a);
    if c >= 0 {
        lemma_para_range(c);
    } else {
        lemma_para_range(-c);
    }
}

fn para_exec(x: i64) -> (r: i64)
    requires
        0 <= x <= HALF_TURN,
    ensures
        r == para(x as int),
        0 <= r <= SCALE,
{
    proof {
        lemma_para_range(x as int);
        assert(0 <= 4 * x * (HALF_TURN - x) <= HALF_TURN as int * HALF_TURN as int)
            by (nonlinear_arith)
            requires
                0 <= x <= HALF_TURN,
        ;
    }
    let num: u64 = (4 * x * (HALF_TURN - x)) as u64;
    let q: u64 = num * (SCALE as u64) / 1_000_000_000_000;
    q as i64
}

/// Sine of an angle in angle units, scaled by `SCALE`.
pub fn sin_fp(a: i64) -> (r: i64)
    requires
        -2 * crate::angle::ANGLE_LIM <= a <= 2 * crate::angle::ANGLE_LIM,
    ensures
        r == sin_fp_spec(a as int),
        -SCALE <= r <= SCALE,
{
    let c = norm_angle(a);
    if c >= 0 {
        para_exec(c)
    } else {
        -para_exec(-c)
    }
}

/// Cosine of an angle in angle units, scaled by `SCALE`.
pub fn cos_fp(a: i64) -> (r: i64)
    requires
        -crate::angle::ANGLE_LIM <= a <= crate::angle::ANGLE_LIM,
    ensures
        r == cos_fp_spec(a as int),
        -SCALE <= r <= SCALE,
{
    sin_fp(a + QUARTER_TURN)
}

/// Scale a non-negative magnitude `a` by a unit-interval factor
/// `s / SCALE`, rounding toward zero.
pub fn scale_by_unit(a: i64, s: i64) -> (r: i64)
    requires
        0 <= a <= VEL_LIM,
        -SCALE <= s <= SCALE,
    ensures
        r == mul_div_trunc(a as int, s as int, SCALE as int),
        iabs(r as int) <= a,
{
    let ms: u64 = if s < 0 {
        (-s) as u64
    } else {
        s as u64
    };
    proof {
        assert(a * ms <= VEL_LIM * SCALE && (a * ms) / (SCALE as int) <= a) by (nonlinear_arith)
            requires
                0 <= a <= VEL_LIM,
                0 <= ms <= SCALE,
        ;
    }
    let p: u64 = (a as u64) * ms / (SCALE as u64);
    if s < 0 {
        -(p as i64)
    } else {
        p as i64
    }
}

/// Signed multiply-then-divide, rounding toward zero.
pub fn mul_div_i64(a: i64, b: i64, den: i64) -> (r: i64)
    requires
        0 < den,
        iabs(a as int) <= 2_500_000_000_000,
        iabs(b as int) <= 3_600_000,
    ensures
        r == mul_div_trunc(a as int, b as int, den as int),
        iabs(r as int) <= iabs(a as int) * iabs(b as int) / (den as int),
{
    let ua: u64 = if a < 0 {
        (-a) as u64
    } else {
        a as u64
    };
    let ub: u64 = if b < 0 {
        (-b) as u64
    } else {
        b as u64
    };
    proof {
        assert(ua * ub <= 9_000_000_000_000_000_000) by (nonlinear_arith)
            requires
                0 <= ua <= 2_500_000_000_000,
                0 <= ub <= 3_600_000,
        ;
    }
    let p: u64 = ua * ub / (den as u64);
    proof {
        vstd::arithmetic::div_mod::lemma_div_is_ordered(
            ua as int * ub as int,
            9_000_000_000_000_000_000,
            den as int,
        );
        vstd::arithmetic::div_mod::lemma_div_nonincreasing(9_000_000_000_000_000_000, den as int);
    }
    if (a < 0) != (b < 0) {
        -(p as i64)
    } else {
        p as i64
    }
}

/// The unit direction vector of a heading, scaled by `SCALE`.
pub open spec fn dir_spec(a: int) -> Vec2I {
    Vec2I { x: cos_fp_spec(a) as i64, y: sin_fp_spec(a) as i64 }
}

/// Velocity vector of magnitude `speed` along heading `a`.
pub fn velocity_from_heading(a: i64, speed: i64) -> (r: Vec2I)
    requires
        -crate::angle::ANGLE_LIM <= a <= crate::angle::ANGLE_LIM,
        0 <= speed <= VEL_LIM,
    ensures
        r.x == mul_div_trunc(speed as int, cos_fp_spec(a as int), SCALE as int),
        r.y == mul_div_trunc(speed as int, sin_fp_spec(a as int), SCALE as int),
        in_vel_range(r),
{
    let c = cos_fp(a);
    let s = sin_fp(a);
    Vec2I { x: scale_by_unit(speed, c), y: scale_by_unit(speed, s) }
}

/// Bearing of the vector `(dx, dy)`: an angle in the canonical range
/// whose octant matches the vector's, linear in the slope within each
/// octant, and exact on the axes and diagonals.  A zero vector has
/// bearing zero.
pub open spec fn bearing_spec(dx: int, dy: int) -> int {
    if dx == 0 && dy == 0 {
        0
    } else {
        let ax = iabs(dx);
        let ay = iabs(dy);
        let t = if ay <= ax {
            ay * EIGHTH_TURN / ax
        } else {
            QUARTER_TURN - ax * EIGHTH_TURN / ay
        };
        let q = if dx >= 0 {
            t
        } else {
            HALF_TURN - t
        };
        if dy >= 0 {
            q
        } else {
            norm_ang(-q)
        }
    }
}

/// Bearing (angle toward) the vector `(dx, dy)`.
pub fn bearing(dx: i64, dy: i64) -> (r: i64)
    requires
        iabs(dx as int) <= 2 * COORD_LIM,
        iabs(dy as int) <= 2 * COORD_LIM,
    ensures
        r == bearing_spec(dx as int, dy as int),
        angle_canonical(r as int),
{
    if dx == 0 && dy == 0 {
        return 0;
    }
    let ax: u64 = if dx < 0 {
        (-dx) as u64
    } else {
        dx as u64
    };
    let ay: u64 = if dy < 0 {
        (-dy) as u64
    } else {
        dy as u64
    };
    let t: i64 = if ay <= ax {
        proof {
            assert(ay * EIGHTH_TURN <= ax * EIGHTH_TURN) by (nonlinear_arith)
                requires
                    0 <= ay <= ax,
                    0 < EIGHTH_TURN,
            ;
            vstd::arithmetic::div_mod::lemma_multiply_divide_le(
                ay * EIGHTH_TURN,
                ax as int,
                EIGHTH_TURN as int,
            );
        }
        ((ay * (EIGHTH_TURN as u64)) / ax) as i64
    } else {
        proof {
            assert(ax * EIGHTH_TURN <= ay * EIGHTH_TURN) by (nonlinear_arith)
                requires
                    0 <= ax <= ay,
                    0 < EIGHTH_TURN,
            ;
            vstd::arithmetic::div_mod::lemma_multiply_divide_le(
                ax * EIGHTH_TURN,
                ay as int,
                EIGHTH_TURN as int,
            );
        }
        QUARTER_TURN - ((ax * (EIGHTH_TURN as u64)) / ay) as i64
    };
    let q: i64 = if dx >= 0 {
        t
    } else {
        HALF_TURN - t
    };
    if dy >= 0 {
        proof {
            crate::angle::lemma_norm_identity(q as int);
        }
        q
    } else {
        norm_angle(-q)
    }
}

} // verus!
