//! Level thresholds, stat curves, and the multi-level-up loop.

use turret_rs::health::Health;
use turret_rs::progression::{
    curve_max_health, level_threshold, scaled_stat, Progression, EXP_CAP,
};

#[test]
fn threshold_values() {
    assert_eq!(level_threshold(0), 100);
    assert_eq!(level_threshold(1), 150);
    assert_eq!(level_threshold(2), 225);
    assert_eq!(level_threshold(3), 338);
    assert_eq!(level_threshold(22), 748_183);
    assert_eq!(level_threshold(23), 1_122_275);
}

#[test]
fn max_health_curve() {
    // the ceiling is taken at whole-hit-point granularity:
    // 10 * 1.2^2 = 14.4 rounds up to 15 hit-points
    assert_eq!(curve_max_health(10_000, 6, 5, 0), 10_000);
    assert_eq!(curve_max_health(10_000, 6, 5, 1), 12_000);
    assert_eq!(curve_max_health(10_000, 6, 5, 2), 15_000);
    assert_eq!(curve_max_health(10_000, 6, 5, 3), 18_000);
}

#[test]
fn damage_curve() {
    assert_eq!(scaled_stat(1_000, 0), 1_000);
    assert_eq!(scaled_stat(1_000, 1), 1_200);
    assert_eq!(scaled_stat(30_000, 2), 43_200);
}

#[test]
fn heal_amount_curve() {
    assert_eq!(turret_rs::healer::heal_amt_by_level(0), 1_000);
    assert_eq!(turret_rs::healer::heal_amt_by_level(3), 1_300);
}

#[test]
fn single_event_multi_level_up() {
    // one million experience from level zero climbs to level 23
    // (the first level whose threshold exceeds the total) and fully
    // heals at the new maximum
    let mut p = Progression::new();
    let mut h = Health::new(10_000);
    p.gain(&mut h, 1_000_000);
    assert_eq!(p.exp, 1_000_000);
    assert_eq!(p.level, 23);
    // ceil(10 * 1.2^23) = 663 hit-points
    assert_eq!(h.max, 663_000);
    assert_eq!(h.val, h.max);
}

#[test]
fn experience_is_monotone_and_saturates() {
    let mut p = Progression::new();
    let mut h = Health::new(10_000);
    p.gain(&mut h, 10);
    assert_eq!(p.exp, 10);
    assert_eq!(p.level, 0);
    assert_eq!(h.val, 10_000);
    let before = p.exp;
    p.gain(&mut h, 200);
    assert!(p.exp >= before);
    assert_eq!(p.exp, 210);
    assert_eq!(p.level, 2); // 210 meets the thresholds 100 and 150
    p.gain(&mut h, u64::MAX);
    assert_eq!(p.exp, EXP_CAP);
}

#[test]
fn small_gain_levels_once() {
    let mut p = Progression::new();
    let mut h = Health::new(10_000);
    p.gain(&mut h, 120);
    assert_eq!(p.level, 1);
    assert_eq!(h.max, 12_000);
    assert_eq!(h.val, 12_000);
}
