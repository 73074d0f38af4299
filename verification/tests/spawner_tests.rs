//! The Poisson sampler and the wave spawner's population ceiling.

use rand::{Rng, SeedableRng};
use turret_rs::expfp::exp_neg_micro;
use turret_rs::spawner::{
    count_hostiles, edge_position, poisson_count, spawn_wave, MAX_ENEMIES, Q32_ONE,
};
use turret_rs::world::World;

#[test]
fn exp_neg_endpoints() {
    assert_eq!(exp_neg_micro(0), Q32_ONE);
    assert!(exp_neg_micro(1_000_000) < Q32_ONE);
    // e^-1 in Q32, within a tiny tolerance of the true value
    let e1 = exp_neg_micro(1_000_000);
    let expected = 1_580_030_169u64; // round(e^-1 * 2^32)
    assert!(e1.abs_diff(expected) < 2_000);
    assert_eq!(exp_neg_micro(200_000_000), 0);
}

#[test]
fn knuth_sampler_counts_draws_until_the_product_falls() {
    // first draw keeps the product near one, second collapses it
    let draws = vec![u32::MAX, 0, u32::MAX, u32::MAX];
    assert_eq!(poisson_count(1 << 31, 3, &draws), 1);
    // an immediate collapse gives a count of zero
    let draws0 = vec![0u32, 0, 0, 0];
    assert_eq!(poisson_count(1 << 31, 3, &draws0), 0);
    // a threshold of one is met by any product: always zero
    let draws1 = vec![u32::MAX; 4];
    assert_eq!(poisson_count(u64::MAX, 3, &draws1), 0);
}

#[test]
fn empirical_poisson_mean_matches_the_rate() {
    // lambda = 0.5: over many trials the mean count converges
    let mut rng = rand::rngs::StdRng::seed_from_u64(0x5eed_cafe);
    let threshold = exp_neg_micro(500_000);
    let trials = 20_000u64;
    let mut total = 0u64;
    for _ in 0..trials {
        let mut draws: Vec<u32> = Vec::with_capacity(101);
        for _ in 0..101 {
            draws.push(rng.gen());
        }
        let c = poisson_count(threshold, MAX_ENEMIES, &draws);
        assert!(c <= MAX_ENEMIES);
        total += c as u64;
    }
    let mean_milli = total * 1_000 / trials;
    // within 5% of 0.5
    assert!(mean_milli > 475 && mean_milli < 525, "mean {} milli", mean_milli);
}

#[test]
fn edge_positions_sit_on_the_playfield_rim() {
    for r in 0..64u32 {
        let p = edge_position(640_000, 360_000, r, r / 2, r.wrapping_mul(2_654_435_761));
        let on_vertical = p.x == -630_000 || p.x == 630_000;
        let on_horizontal = p.y == -350_000 || p.y == 350_000;
        assert!(on_vertical || on_horizontal);
        assert!(p.x >= -640_000 && p.x <= 640_000);
        assert!(p.y >= -360_000 && p.y <= 360_000);
    }
}

#[test]
fn population_never_exceeds_the_ceiling() {
    let mut w = World::new(640_000, 360_000);
    // very long ticks force huge spawn rates; the cap must hold
    for _ in 0..5 {
        spawn_wave(&mut w, 600_000, 4);
        assert!(count_hostiles(&w) <= MAX_ENEMIES);
    }
    // and with the ceiling reached, further waves add nothing
    let before = count_hostiles(&w);
    spawn_wave(&mut w, 600_000, 4);
    assert!(count_hostiles(&w) <= MAX_ENEMIES.max(before));
}

#[test]
fn zero_rate_spawns_nothing() {
    let mut w = World::new(640_000, 360_000);
    spawn_wave(&mut w, 0, 0);
    assert_eq!(count_hostiles(&w), 0);
}
