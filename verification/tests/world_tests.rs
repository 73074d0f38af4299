//! The arena: handles, liveness, deferred destruction, and target
//! selection with latching.

use turret_rs::geom::Vec2I;
use turret_rs::spawner::make_enemy;
use turret_rs::world::{Archetype, World};

fn arena() -> World {
    World::new(640_000, 360_000)
}

#[test]
fn stale_handles_stop_resolving() {
    let mut w = arena();
    let id = w.spawn_agent(make_enemy(Archetype::BasicEnemy, Vec2I { x: 0, y: 0 }));
    assert!(w.get_agent(id).is_some());
    let mut a = w.get_agent(id).unwrap();
    a.health.apply_damage(u64::MAX);
    assert_eq!(a.health.val, 0);
    w.set_agent(id, a);
    // still present until the commit point at the end of the tick
    assert!(w.get_agent(id).is_some());
    w.commit_destroyed();
    // the handle no longer resolves, and a reused slot has a new
    // generation so the old handle stays stale
    assert!(w.get_agent(id).is_none());
    let id2 = w.spawn_agent(make_enemy(Archetype::BasicEnemy, Vec2I { x: 5, y: 5 }));
    assert_eq!(id2.idx, id.idx);
    assert_ne!(id2.gen, id.gen);
    assert!(w.get_agent(id).is_none());
}

#[test]
fn nearest_candidate_prefers_first_seen_on_ties() {
    let mut w = arena();
    let a = w.spawn_agent(make_enemy(Archetype::BasicEnemy, Vec2I { x: 100_000, y: 0 }));
    let _b = w.spawn_agent(make_enemy(Archetype::BasicEnemy, Vec2I { x: -100_000, y: 0 }));
    let sel = w.nearest_candidate(Vec2I { x: 0, y: 0 }, true, None);
    assert_eq!(sel, Some(a));
}

#[test]
fn nearest_candidate_picks_the_closest() {
    let mut w = arena();
    let _far = w.spawn_agent(make_enemy(Archetype::BasicEnemy, Vec2I { x: 300_000, y: 0 }));
    let near = w.spawn_agent(make_enemy(Archetype::BossEnemy, Vec2I { x: 50_000, y: 0 }));
    let sel = w.nearest_candidate(Vec2I { x: 0, y: 0 }, true, None);
    assert_eq!(sel, Some(near));
}

#[test]
fn target_latch_survives_closer_newcomers() {
    // targeting stability: the latched target is kept even when a
    // closer candidate appears later
    let mut w = arena();
    let first = w.spawn_agent(make_enemy(Archetype::BasicEnemy, Vec2I { x: 400_000, y: 0 }));
    let latched = w.select_combat_target(None, Vec2I { x: 0, y: 0 }, true, None);
    assert_eq!(latched, Some(first));
    let _closer = w.spawn_agent(make_enemy(Archetype::BasicEnemy, Vec2I { x: 20_000, y: 0 }));
    let kept = w.select_combat_target(latched, Vec2I { x: 0, y: 0 }, true, None);
    assert_eq!(kept, Some(first));
}

#[test]
fn aim_phase_keeps_the_latched_target() {
    // a whole acquisition pass must not flicker to a closer newcomer
    let mut w = arena();
    let first = w.spawn_agent(make_enemy(Archetype::BasicEnemy, Vec2I { x: 400_000, y: 0 }));
    let tower = turret_rs::persist::spawn_from_record(
        &mut w,
        turret_rs::persist::SaveRecord {
            archetype: Archetype::Turret,
            pos: Vec2I { x: 0, y: 0 },
            heading: 0,
            health_val: 10_000,
            health_max: 10_000,
            level: 0,
            exp: 0,
            max_health_base: 10_000,
            exp_num: 6,
            exp_den: 5,
            kills: 0,
        },
    ).unwrap();
    turret_rs::aim::aim_phase(&mut w, 16);
    assert_eq!(w.get_agent(tower).unwrap().target, Some(first));
    let _closer = w.spawn_agent(make_enemy(Archetype::BasicEnemy, Vec2I { x: 30_000, y: 0 }));
    turret_rs::aim::aim_phase(&mut w, 16);
    assert_eq!(w.get_agent(tower).unwrap().target, Some(first));
    // a tower facing its target is enabled to fire
    assert!(w.get_agent(tower).unwrap().shooter.unwrap().enabled);
}

#[test]
fn drift_axis_follows_its_formula() {
    // no velocity and a centred draw leave the axis still
    assert_eq!(turret_rs::aim::drift_axis(0, 1_000, 500_000), 0);
    // an extreme upward draw kicks, then damping shaves a fifth
    assert_eq!(turret_rs::aim::drift_axis(0, 1_000, 999_999), 599_998);
    // the result never leaves the velocity range
    let v = turret_rs::aim::drift_axis(1_000_000_000, 3_600_000, 999_999);
    assert!(v.abs() <= 1_000_000_000);
}

#[test]
fn dead_target_triggers_reacquisition() {
    let mut w = arena();
    let first = w.spawn_agent(make_enemy(Archetype::BasicEnemy, Vec2I { x: 400_000, y: 0 }));
    let second = w.spawn_agent(make_enemy(Archetype::BasicEnemy, Vec2I { x: 100_000, y: 0 }));
    let mut a = w.get_agent(first).unwrap();
    a.health.apply_damage(u64::MAX);
    w.set_agent(first, a);
    let sel = w.select_combat_target(Some(first), Vec2I { x: 0, y: 0 }, true, None);
    assert_eq!(sel, Some(second));
}

#[test]
fn range_restriction_excludes_far_candidates() {
    let mut w = arena();
    let _far = w.spawn_agent(make_enemy(Archetype::BasicEnemy, Vec2I { x: 500_000, y: 0 }));
    let sel = w.nearest_candidate(Vec2I { x: 0, y: 0 }, true, Some(10_000_000_000u128));
    assert!(sel.is_none());
}
