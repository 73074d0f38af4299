//! Whole ticks, round timing, stage reset and the scoreboard.

use turret_rs::geom::Vec2I;
use turret_rs::level::LevelState;
use turret_rs::persist::{spawn_from_record, SaveRecord};
use turret_rs::score::Scoreboard;
use turret_rs::spawner::{count_hostiles, make_enemy, MAX_ENEMIES};
use turret_rs::tick::world_tick;
use turret_rs::world::{Archetype, World};

fn fresh_round() -> World {
    World::new(640_000, 360_000)
}

fn turret_record(pos: Vec2I) -> SaveRecord {
    SaveRecord {
        archetype: Archetype::Turret,
        pos,
        heading: 0,
        health_val: 10_000,
        health_max: 10_000,
        level: 0,
        exp: 0,
        max_health_base: 10_000,
        exp_num: 6,
        exp_den: 5,
        kills: 0,
    }
}

#[test]
fn ticks_keep_the_world_coherent() {
    let mut w = fresh_round();
    let id = spawn_from_record(&mut w, turret_record(Vec2I { x: 0, y: 0 })).unwrap();
    let _e = w.spawn_agent(make_enemy(Archetype::BasicEnemy, Vec2I { x: 200_000, y: 0 }));
    for _ in 0..50 {
        world_tick(&mut w, 16, 0, true);
        assert_eq!(w.events.len(), 0, "events are drained every tick");
        assert!(count_hostiles(&w) <= MAX_ENEMIES);
    }
    // the tower still resolves (enemies may or may not have scratched it)
    assert!(w.get_agent(id).is_some());
}

#[test]
fn a_tower_eventually_guns_down_a_lone_enemy() {
    let mut w = fresh_round();
    let _t = spawn_from_record(&mut w, turret_record(Vec2I { x: 0, y: 0 })).unwrap();
    let e = w.spawn_agent(make_enemy(Archetype::BasicEnemy, Vec2I { x: 150_000, y: 0 }));
    // freeze the enemy so the duel is one-sided
    let mut ea = w.get_agent(e).unwrap();
    ea.shooter = None;
    ea.vel = Vec2I { x: 0, y: 0 };
    w.set_agent(e, ea);
    let mut dead = false;
    for _ in 0..400 {
        world_tick(&mut w, 16, 0, false);
        if w.get_agent(e).is_none() {
            dead = true;
            break;
        }
        // keep the enemy pinned in place
        if let Some(mut ea) = w.get_agent(e) {
            ea.vel = Vec2I { x: 0, y: 0 };
            w.set_agent(e, ea);
        }
    }
    assert!(dead, "the enemy was never destroyed");
}

#[test]
fn stage_reset_clears_hostiles_and_restores_towers() {
    let mut w = fresh_round();
    let t = spawn_from_record(&mut w, turret_record(Vec2I { x: 0, y: 0 })).unwrap();
    let e = w.spawn_agent(make_enemy(Archetype::BasicEnemy, Vec2I { x: 100_000, y: 0 }));
    let mut ta = w.get_agent(t).unwrap();
    ta.health.apply_damage(4_000);
    w.set_agent(t, ta);
    w.reset_stage();
    assert!(w.get_agent(e).is_none());
    let ta2 = w.get_agent(t).unwrap();
    assert_eq!(ta2.health.val, ta2.health.max);
    assert_eq!(w.projectiles.len(), 0);
    assert_eq!(w.events.len(), 0);
}

#[test]
fn round_timer_finishes_exactly_once() {
    let mut lvl = LevelState::start(2);
    assert!(lvl.is_running());
    assert_eq!(lvl.difficulty(), 2);
    let mut finishes = 0;
    for _ in 0..100 {
        if lvl.tick(1_000) {
            finishes += 1;
        }
    }
    assert_eq!(finishes, 1);
    let select = LevelState::Select;
    assert!(!select.is_running());
}

#[test]
fn scoreboard_tracks_high_scores_and_unlocks() {
    let mut sb = Scoreboard::new();
    assert!(sb.stages[0].unlocked);
    assert!(!sb.stages[1].unlocked);
    sb.credit(250);
    assert_eq!(sb.score, 250);
    assert_eq!(sb.credits, 250);
    sb.finish_round(0);
    assert_eq!(sb.stages[0].high_score, Some(250));
    assert!(sb.stages[1].unlocked);
    // a worse round leaves the high score alone
    sb.score = 100;
    sb.finish_round(0);
    assert_eq!(sb.stages[0].high_score, Some(250));
    // a better one replaces it
    sb.score = 400;
    sb.finish_round(0);
    assert_eq!(sb.stages[0].high_score, Some(400));
}
