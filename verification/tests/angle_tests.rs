//! Angular approach: normalization, alignment, and shortest-path
//! wraparound.

use turret_rs::angle::{approach, norm_angle, HALF_TURN, TURN};

#[test]
fn normalizes_into_canonical_range() {
    assert_eq!(norm_angle(0), 0);
    assert_eq!(norm_angle(HALF_TURN), HALF_TURN);
    assert_eq!(norm_angle(-HALF_TURN), HALF_TURN);
    assert_eq!(norm_angle(TURN + 5), 5);
    assert_eq!(norm_angle(2_500_000), 500_000);
    assert_eq!(norm_angle(-2_500_000), -500_000);
}

#[test]
fn aligns_only_within_step() {
    // distance 10 with step 3: move by exactly 3, not aligned
    assert_eq!(approach(0, 10, 3), (3, false));
    // distance 2 with step 3: snap to the desired angle
    assert_eq!(approach(0, 2, 3), (2, true));
    // exact distance equal to step: moves onto the target but the
    // flag stays clear (strict comparison)
    assert_eq!(approach(0, 3, 3), (3, false));
}

#[test]
fn distance_shrinks_by_step_until_aligned() {
    // the spec's slow chase: a target nearly half a turn away,
    // approached in fixed steps of about a tenth of a radian
    let step = 31_831; // ~0.1 rad in angle units
    let desired = 996_817; // ~(pi - 0.01) rad
    let mut cur = 0i64;
    let mut dist = desired - cur;
    let mut steps = 0;
    loop {
        let (next, aligned) = approach(cur, desired, step);
        if aligned {
            assert_eq!(next, desired);
            // alignment only once the remaining arc is below the step
            assert!(dist < step);
            break;
        }
        let ndist = desired - next;
        // non-increasing, shrinking by exactly one step, no overshoot
        assert_eq!(ndist, dist - step);
        assert!(ndist >= 0);
        cur = next;
        dist = ndist;
        steps += 1;
        assert!(steps < 100, "approach failed to converge");
    }
}

#[test]
fn crosses_the_wrap_boundary_by_the_short_path() {
    // from just below +pi to just above -pi: the short arc is two
    // tenths of a radian across the wrap, not almost a full turn
    let step = 31_831;
    let cur = HALF_TURN - 31_831;
    let desired = -HALF_TURN + 31_831;
    let (n1, a1) = approach(cur, desired, step);
    assert_eq!((n1, a1), (HALF_TURN, false));
    let (n2, a2) = approach(n1, desired, step);
    assert_eq!((n2, a2), (desired, false));
    let (n3, a3) = approach(n2, desired, step);
    assert_eq!((n3, a3), (desired, true));
}
