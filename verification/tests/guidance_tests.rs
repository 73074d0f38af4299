//! Homing guidance, beams and healing pulses.

use turret_rs::beam::beam_phase;
use turret_rs::healer::heal_phase;
use turret_rs::homing::homing_phase;
use turret_rs::geom::Vec2I;
use turret_rs::persist::{spawn_from_record, SaveRecord};
use turret_rs::spawner::make_enemy;
use turret_rs::world::{AgentId, Archetype, Homing, Projectile, World};

fn proving_ground() -> World {
    World::new(640_000, 360_000)
}

fn record_for(arch: Archetype, pos: Vec2I) -> SaveRecord {
    SaveRecord {
        archetype: arch,
        pos,
        heading: 0,
        health_val: 10_000,
        health_max: 10_000,
        level: 0,
        exp: 0,
        max_health_base: 10_000,
        exp_num: 6,
        exp_den: 5,
        kills: 0,
    }
}

// an enemy-fired missile: its inverted filter selects the friendly
// population as its prey
fn missile_at(pos: Vec2I, target: Option<AgentId>, owner: AgentId, ttl: i64) -> Projectile {
    Projectile {
        pos,
        vel: Vec2I { x: 300_000, y: 0 },
        heading: 0,
        targets_hostile: false,
        owner,
        damage: 30_000,
        homing: Some(Homing { target, ttl, trail: vec![pos] }),
    }
}

#[test]
fn expired_missiles_are_removed() {
    let mut w = proving_ground();
    let owner = AgentId { idx: 9, gen: 0 };
    w.projectiles.push(missile_at(Vec2I { x: 0, y: 0 }, None, owner, 50));
    homing_phase(&mut w, 100);
    assert_eq!(w.projectiles.len(), 0);
}

#[test]
fn missile_steers_toward_a_living_target() {
    let mut w = proving_ground();
    // the missile hunts towers (friendly faction)
    let tower = spawn_from_record(&mut w, record_for(Archetype::Turret, Vec2I {
        x: 0,
        y: 200_000,
    })).unwrap();
    let owner = AgentId { idx: 42, gen: 0 };
    w.projectiles.push(missile_at(Vec2I { x: 0, y: 0 }, Some(tower), owner, 5_000));
    homing_phase(&mut w, 100);
    assert_eq!(w.projectiles.len(), 1);
    let p = &w.projectiles[0];
    // bearing straight up is a quarter turn; one 100 ms step at the
    // missile turn rate covers 50_000 angle units
    assert_eq!(p.heading, 50_000);
    assert!(p.vel.y > 0);
    let h = p.homing.as_ref().unwrap();
    assert_eq!(h.ttl, 4_900);
    assert_eq!(h.target, Some(tower));
}

#[test]
fn missile_retargets_when_its_target_dies() {
    let mut w = proving_ground();
    let doomed = spawn_from_record(&mut w, record_for(Archetype::Turret, Vec2I {
        x: 100_000,
        y: 0,
    })).unwrap();
    let survivor = spawn_from_record(&mut w, record_for(Archetype::Shotgun, Vec2I {
        x: -100_000,
        y: 0,
    })).unwrap();
    let mut a = w.get_agent(doomed).unwrap();
    a.health.apply_damage(u64::MAX);
    w.set_agent(doomed, a);
    let owner = AgentId { idx: 42, gen: 0 };
    w.projectiles.push(missile_at(Vec2I { x: 0, y: 0 }, Some(doomed), owner, 5_000));
    homing_phase(&mut w, 100);
    let h = w.projectiles[0].homing.as_ref().unwrap();
    assert_eq!(h.target, Some(survivor));
}

#[test]
fn tower_missile_hunts_the_hostile_population() {
    // a missile fired by a friendly tower carries the inverted
    // faction filter, so it retargets among enemies, never towers
    let mut w = proving_ground();
    let _tower = spawn_from_record(&mut w, record_for(Archetype::Turret, Vec2I {
        x: 20_000,
        y: 0,
    })).unwrap();
    let far_enemy = w.spawn_agent(make_enemy(Archetype::BasicEnemy, Vec2I {
        x: 400_000,
        y: 0,
    }));
    let near_enemy = w.spawn_agent(make_enemy(Archetype::BasicEnemy, Vec2I {
        x: 100_000,
        y: 0,
    }));
    let owner = AgentId { idx: 0, gen: 0 };
    let mut m = missile_at(Vec2I { x: 0, y: 0 }, None, owner, 5_000);
    m.targets_hostile = true;
    w.projectiles.push(m);
    homing_phase(&mut w, 100);
    let h = w.projectiles[0].homing.as_ref().unwrap();
    assert_eq!(h.target, Some(near_enemy));
    assert_ne!(h.target, Some(far_enemy));
}

#[test]
fn trail_records_spaced_points_up_to_capacity() {
    let mut w = proving_ground();
    let owner = AgentId { idx: 42, gen: 0 };
    let mut m = missile_at(Vec2I { x: 0, y: 0 }, None, owner, 1_000_000);
    // pretend the missile has already flown far from its last record
    m.pos = Vec2I { x: 50_000, y: 0 };
    m.homing.as_mut().unwrap().trail = vec![Vec2I { x: 0, y: 0 }];
    w.projectiles.push(m);
    homing_phase(&mut w, 10);
    let h = w.projectiles[0].homing.as_ref().unwrap();
    assert_eq!(h.trail.len(), 2);
    assert_eq!(h.trail[1], Vec2I { x: 50_000, y: 0 });

    // a full trail evicts its oldest point
    let mut m2 = missile_at(Vec2I { x: 0, y: 0 }, None, owner, 1_000_000);
    let mut trail = Vec::new();
    for i in 0..50 {
        trail.push(Vec2I { x: i * 1_000, y: 99_000 });
    }
    m2.homing.as_mut().unwrap().trail = trail;
    m2.pos = Vec2I { x: 500_000, y: 0 };
    w.projectiles.push(m2);
    homing_phase(&mut w, 10);
    let h2 = w.projectiles[1].homing.as_ref().unwrap();
    assert_eq!(h2.trail.len(), 50);
    assert_eq!(h2.trail[0], Vec2I { x: 1_000, y: 99_000 });
    assert_eq!(h2.trail[49], Vec2I { x: 500_000, y: 0 });
}

#[test]
fn close_trail_points_are_not_oversampled() {
    let mut w = proving_ground();
    let owner = AgentId { idx: 42, gen: 0 };
    let mut m = missile_at(Vec2I { x: 0, y: 0 }, None, owner, 1_000_000);
    m.pos = Vec2I { x: 5_000, y: 0 }; // within the spacing
    m.homing.as_mut().unwrap().trail = vec![Vec2I { x: 0, y: 0 }];
    w.projectiles.push(m);
    homing_phase(&mut w, 10);
    assert_eq!(w.projectiles[0].homing.as_ref().unwrap().trail.len(), 1);
}

#[test]
fn burning_beam_damages_hostiles_in_its_corridor() {
    let mut w = proving_ground();
    let tower = spawn_from_record(&mut w, record_for(Archetype::BeamTower, Vec2I {
        x: 0,
        y: 0,
    })).unwrap();
    let mut a = w.get_agent(tower).unwrap();
    a.beam = Some(turret_rs::world::BeamState { shoot_phase: 2_000, cooldown: 5_000 });
    w.set_agent(tower, a);
    // in the corridor (east of the tower), and one far off the line
    let victim = w.spawn_agent(make_enemy(Archetype::BossEnemy, Vec2I { x: 400_000, y: 0 }));
    let bystander = w.spawn_agent(make_enemy(Archetype::BossEnemy, Vec2I {
        x: 400_000,
        y: 300_000,
    }));
    beam_phase(&mut w, 1_000);
    // base beam damage is 50 hit-points per second
    assert_eq!(w.get_agent(victim).unwrap().health.val, 150_000 - 50_000);
    assert_eq!(w.get_agent(bystander).unwrap().health.val, 150_000);
    // the burst phase ticked down
    let b = w.get_agent(tower).unwrap().beam.unwrap();
    assert_eq!(b.shoot_phase, 1_000);
    assert_eq!(b.cooldown, 4_000);
}

#[test]
fn beam_dps_scales_with_level() {
    assert_eq!(turret_rs::beam::beam_dps_by_level(0), 50_000);
    assert_eq!(turret_rs::beam::beam_dps_by_level(1), 60_000);
    assert_eq!(turret_rs::beam::beam_dps_by_level(2), 72_000);
}

#[test]
fn resting_beam_does_no_damage() {
    let mut w = proving_ground();
    let _tower = spawn_from_record(&mut w, record_for(Archetype::BeamTower, Vec2I {
        x: 0,
        y: 0,
    })).unwrap();
    let victim = w.spawn_agent(make_enemy(Archetype::BossEnemy, Vec2I { x: 400_000, y: 0 }));
    beam_phase(&mut w, 1_000);
    assert_eq!(w.get_agent(victim).unwrap().health.val, 150_000);
}

#[test]
fn ready_healer_heals_its_patient_and_queues_a_heal_event() {
    let mut w = proving_ground();
    let healer = spawn_from_record(&mut w, record_for(Archetype::Healer, Vec2I {
        x: 0,
        y: 0,
    })).unwrap();
    let patient = spawn_from_record(&mut w, record_for(Archetype::Turret, Vec2I {
        x: 100_000,
        y: 0,
    })).unwrap();
    let mut pa = w.get_agent(patient).unwrap();
    pa.health.apply_damage(4_000);
    w.set_agent(patient, pa);
    let mut ha = w.get_agent(healer).unwrap();
    ha.target = Some(patient);
    ha.healer = Some(turret_rs::world::HealerState {
        enabled: true,
        cooldown: 0,
        heal_amt: 1_000,
    });
    w.set_agent(healer, ha);
    heal_phase(&mut w, 100);
    assert_eq!(w.get_agent(patient).unwrap().health.val, 7_000);
    assert_eq!(w.events.len(), 1);
    assert!(!w.events[0].killed);
    assert_eq!(w.events[0].amount, 3); // three times one restored hit-point
    let hs = w.get_agent(healer).unwrap().healer.unwrap();
    assert_eq!(hs.cooldown, 2_000);
}

#[test]
fn healing_saturates_at_the_maximum() {
    let mut w = proving_ground();
    let healer = spawn_from_record(&mut w, record_for(Archetype::Healer, Vec2I {
        x: 0,
        y: 0,
    })).unwrap();
    let patient = spawn_from_record(&mut w, record_for(Archetype::Turret, Vec2I {
        x: 100_000,
        y: 0,
    })).unwrap();
    let mut pa = w.get_agent(patient).unwrap();
    pa.health.apply_damage(500);
    w.set_agent(patient, pa);
    let mut ha = w.get_agent(healer).unwrap();
    ha.target = Some(patient);
    ha.healer = Some(turret_rs::world::HealerState {
        enabled: true,
        cooldown: 0,
        heal_amt: 1_000,
    });
    w.set_agent(healer, ha);
    heal_phase(&mut w, 100);
    let h = w.get_agent(patient).unwrap().health;
    assert_eq!(h.val, h.max);
}
