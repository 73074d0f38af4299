//! Fire control, motion, collision resolution, homing, beams,
//! healing and the experience pipeline, phase by phase.

use turret_rs::collision::collision_phase;
use turret_rs::events::drain_events;
use turret_rs::geom::{integrate_motion, Vec2I};
use turret_rs::persist::{spawn_from_record, SaveRecord};
use turret_rs::spawner::make_enemy;
use turret_rs::weapon::fire_phase;
use turret_rs::world::{AgentId, Archetype, World};

fn battlefield() -> World {
    World::new(640_000, 360_000)
}

fn tower_record(arch: Archetype, pos: Vec2I, heading: i64) -> SaveRecord {
    SaveRecord {
        archetype: arch,
        pos,
        heading,
        health_val: 10_000,
        health_max: 10_000,
        level: 0,
        exp: 0,
        max_health_base: 10_000,
        exp_num: 6,
        exp_den: 5,
        kills: 0,
    }
}

fn place_tower(w: &mut World, arch: Archetype, pos: Vec2I, heading: i64) -> AgentId {
    spawn_from_record(w, tower_record(arch, pos, heading)).expect("record accepted")
}

#[test]
fn motion_advances_by_velocity_times_time() {
    let pos = Vec2I { x: 1_000, y: -2_000 };
    let vel = Vec2I { x: 500_000, y: -250_000 };
    let moved = integrate_motion(pos, vel, 100);
    assert_eq!(moved, Vec2I { x: 51_000, y: -27_000 });
}

#[test]
fn enabled_turret_fires_one_bullet_and_resets_cooldown() {
    let mut w = battlefield();
    let id = place_tower(&mut w, Archetype::Turret, Vec2I { x: 0, y: 0 }, 0);
    let mut a = w.get_agent(id).unwrap();
    let mut s = a.shooter.unwrap();
    s.enabled = true;
    s.cooldown = 0;
    a.shooter = Some(s);
    w.set_agent(id, a);
    fire_phase(&mut w, 100);
    assert_eq!(w.projectiles.len(), 1);
    let p = &w.projectiles[0];
    assert_eq!(p.heading, 0);
    assert_eq!(p.damage, 1_000);
    assert!(p.targets_hostile);
    assert_eq!(p.owner, id);
    assert!(p.homing.is_none());
    // cooldown reset by adding the interval: 0 + 250 - 100
    let s2 = w.get_agent(id).unwrap().shooter.unwrap();
    assert_eq!(s2.cooldown, 150);
}

#[test]
fn shotgun_fires_a_seven_shot_spread() {
    let mut w = battlefield();
    let id = place_tower(&mut w, Archetype::Shotgun, Vec2I { x: 0, y: 0 }, 200_000);
    let mut a = w.get_agent(id).unwrap();
    a.shooter = Some(turret_rs::world::Shooter { enabled: true, cooldown: 0, damage: 1_000 });
    w.set_agent(id, a);
    fire_phase(&mut w, 50);
    assert_eq!(w.projectiles.len(), 7);
    for (k, p) in w.projectiles.iter().enumerate() {
        let expected = 200_000 + (k as i64 - 3) * 50_000;
        assert_eq!(p.heading, expected);
    }
}

#[test]
fn missile_platform_fires_a_quartet_with_homing() {
    let mut w = battlefield();
    let enemy = w.spawn_agent(make_enemy(Archetype::BasicEnemy, Vec2I { x: 300_000, y: 0 }));
    let mut ea = w.get_agent(enemy).unwrap();
    ea.shooter = None;
    w.set_agent(enemy, ea);
    let id = place_tower(&mut w, Archetype::MissileTower, Vec2I { x: 0, y: 0 }, 0);
    let mut a = w.get_agent(id).unwrap();
    a.shooter = Some(turret_rs::world::Shooter { enabled: true, cooldown: 0, damage: 30_000 });
    a.target = Some(enemy);
    w.set_agent(id, a);
    fire_phase(&mut w, 50);
    assert_eq!(w.projectiles.len(), 4);
    for p in w.projectiles.iter() {
        // the faction filter is inherited inverted: a friendly
        // tower's missiles hunt and damage the hostile population
        assert!(p.targets_hostile);
        let h = p.homing.as_ref().expect("homing payload");
        assert_eq!(h.target, Some(enemy));
        assert_eq!(h.ttl, 10_000);
        assert_eq!(h.trail.len(), 1);
    }
}

#[test]
fn disabled_weapons_hold_their_fire() {
    let mut w = battlefield();
    let _id = place_tower(&mut w, Archetype::Turret, Vec2I { x: 0, y: 0 }, 0);
    fire_phase(&mut w, 100);
    assert_eq!(w.projectiles.len(), 0);
}

#[test]
fn projectile_collides_once_and_is_removed() {
    // collision idempotence: one projectile, one victim, one hit
    let mut w = battlefield();
    let enemy = w.spawn_agent(make_enemy(Archetype::BossEnemy, Vec2I { x: 0, y: 0 }));
    let owner = place_tower(&mut w, Archetype::Turret, Vec2I { x: -200_000, y: 0 }, 0);
    w.projectiles.push(turret_rs::world::Projectile {
        pos: Vec2I { x: 1_000, y: 0 },
        vel: Vec2I { x: 0, y: 0 },
        heading: 0,
        targets_hostile: true,
        owner,
        damage: 40_000,
        homing: None,
    });
    let before = w.get_agent(enemy).unwrap().health.val;
    collision_phase(&mut w);
    let after = w.get_agent(enemy).unwrap().health.val;
    assert_eq!(w.projectiles.len(), 0, "colliding projectile is removed");
    assert_eq!(after, before - 40_000);
    // a second resolution finds no projectile: no double damage
    collision_phase(&mut w);
    assert_eq!(w.get_agent(enemy).unwrap().health.val, after);
}

#[test]
fn lethal_hit_emits_one_kill_event_and_clamps_at_zero() {
    let mut w = battlefield();
    let enemy = w.spawn_agent(make_enemy(Archetype::BasicEnemy, Vec2I { x: 0, y: 0 }));
    let owner = place_tower(&mut w, Archetype::Turret, Vec2I { x: -200_000, y: 0 }, 0);
    w.projectiles.push(turret_rs::world::Projectile {
        pos: Vec2I { x: 0, y: 0 },
        vel: Vec2I { x: 0, y: 0 },
        heading: 0,
        targets_hostile: true,
        owner,
        damage: 999_999_999,
        homing: None,
    });
    collision_phase(&mut w);
    assert_eq!(w.get_agent(enemy).unwrap().health.val, 0);
    assert_eq!(w.events.len(), 1);
    assert!(w.events[0].killed);
    assert_eq!(w.events[0].amount, 10);
    assert_eq!(w.events[0].target, owner);
    w.commit_destroyed();
    assert!(w.get_agent(enemy).is_none());
}

#[test]
fn out_of_bounds_projectiles_expire() {
    let mut w = battlefield();
    let owner = AgentId { idx: 0, gen: 0 };
    w.projectiles.push(turret_rs::world::Projectile {
        pos: Vec2I { x: 700_000, y: 0 },
        vel: Vec2I { x: 0, y: 0 },
        heading: 0,
        targets_hostile: true,
        owner,
        damage: 1_000,
        homing: None,
    });
    collision_phase(&mut w);
    assert_eq!(w.projectiles.len(), 0);
}

#[test]
fn friendly_fire_is_filtered() {
    // a projectile aimed at hostiles flies through a tower
    let mut w = battlefield();
    let tower = place_tower(&mut w, Archetype::Turret, Vec2I { x: 0, y: 0 }, 0);
    w.projectiles.push(turret_rs::world::Projectile {
        pos: Vec2I { x: 0, y: 0 },
        vel: Vec2I { x: 0, y: 0 },
        heading: 0,
        targets_hostile: true,
        owner: tower,
        damage: 5_000,
        homing: None,
    });
    let before = w.get_agent(tower).unwrap().health.val;
    collision_phase(&mut w);
    assert_eq!(w.get_agent(tower).unwrap().health.val, before);
    assert_eq!(w.projectiles.len(), 1, "no hostile in reach, projectile survives");
}

#[test]
fn kill_event_levels_the_owner_and_counts_the_kill() {
    let mut w = battlefield();
    let owner = place_tower(&mut w, Archetype::Turret, Vec2I { x: 0, y: 0 }, 0);
    w.events.push(turret_rs::world::ExpEvent { target: owner, amount: 120, killed: true });
    drain_events(&mut w);
    assert_eq!(w.events.len(), 0);
    let a = w.get_agent(owner).unwrap();
    let p = a.progression.unwrap();
    assert_eq!(p.exp, 120);
    assert_eq!(p.level, 1);
    assert_eq!(a.kills, 1);
    assert_eq!(a.health.max, 12_000);
    assert_eq!(a.health.val, 12_000);
    // the weapon's damage follows the new level
    assert_eq!(a.shooter.unwrap().damage, 1_200);
}

#[test]
fn stale_event_is_dropped_silently() {
    let mut w = battlefield();
    let ghost_id = AgentId { idx: 7, gen: 3 };
    w.events.push(turret_rs::world::ExpEvent { target: ghost_id, amount: 50, killed: true });
    drain_events(&mut w);
    assert_eq!(w.events.len(), 0);
}
