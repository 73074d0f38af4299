//! Persistence records and the tower spawn contract.
//!
//! A save record carries, per tower, the observable state the arena
//! owes across a save/load cycle: archetype tag, position, heading,
//! health, progression and kill count.  Loading goes through the
//! same spawn contract as placement: a well-formed record rebuilds a
//! tower whose observable state matches the record exactly, while a
//! malformed record is rejected (skipped) rather than aborting the
//! load.

use crate::angle::ANGLE_LIM;
use crate::events::damage_of;
use crate::geom::{in_coord_range, Vec2I};
use crate::healer::heal_amt_of;
use crate::health::{Health, HEALTH_LIM};
use crate::progression::{Progression, EXP_CAP, LEVEL_CAP, STAT_BASE_LIM};
use crate::world::{
    agent_wf, Agent, AgentId, Archetype, BeamState, HealerState, Shooter, World,
};
use vstd::prelude::*;

verus! {

/// Collision box width of a tower, in position units.
pub const TOWER_RADIUS: i64 = 10_000;

/// Experience a tower awards if destroyed.
pub const TOWER_EXP_VALUE: u64 = 10;

/// Initial cooldown of a restored healer, in milliseconds.
pub const HEALER_START_COOLDOWN_MS: i64 = 2_000;

/// One tower's persisted state.
#[derive(Clone, Copy, Debug, PartialEq, Eq, Structural)]
pub struct SaveRecord {
    pub archetype: Archetype,
    pub pos: Vec2I,
    pub heading: i64,
    pub health_val: u64,
    pub health_max: u64,
    pub level: u32,
    pub exp: u64,
    pub max_health_base: u64,
    pub exp_num: u32,
    pub exp_den: u32,
    pub kills: u64,
}

/// The archetypes the persistence layer knows how to rebuild.
pub open spec fn tower_archetype(arch: Archetype) -> bool {
    arch is Turret || arch is Shotgun || arch is MissileTower || arch is Healer
        || arch is BeamTower
}

/// A record the spawn contract accepts: a known tower tag, a
/// position on the playfield, a bounded heading, a coherent health
/// pool and a well-formed progression.
pub open spec fn record_valid(rec: SaveRecord) -> bool {
    &&& tower_archetype(rec.archetype)
    &&& in_coord_range(rec.pos)
    &&& -ANGLE_LIM <= rec.heading <= ANGLE_LIM
    &&& rec.health_val <= rec.health_max <= HEALTH_LIM
    &&& rec.level <= LEVEL_CAP
    &&& rec.exp <= EXP_CAP
    &&& 0 < rec.max_health_base <= STAT_BASE_LIM
    &&& 1 <= rec.exp_den <= rec.exp_num <= 6
    &&& rec.exp_num <= 2 * rec.exp_den
}

/// The record a tower serializes to.
pub open spec fn record_spec(a: Agent) -> SaveRecord {
    let p = a.progression.unwrap();
    SaveRecord {
        archetype: a.archetype,
        pos: a.pos,
        heading: a.heading,
        health_val: a.health.val,
        health_max: a.health.max,
        level: p.level,
        exp: p.exp,
        max_health_base: p.max_health_base,
        exp_num: p.exp_num,
        exp_den: p.exp_den,
        kills: a.kills,
    }
}

/// Serialize a tower: its record, or absent for agents that carry
/// no progression (only towers persist).
pub fn record_of_agent(a: &Agent) -> (r: Option<SaveRecord>)
    ensures
        r is Some <==> a.progression is Some,
        a.progression is Some ==> r == Some(record_spec(*a)),
{
    match a.progression {
        Some(p) => Some(
            SaveRecord {
                archetype: a.archetype,
                pos: a.pos,
                heading: a.heading,
                health_val: a.health.val,
                health_max: a.health.max,
                level: p.level,
                exp: p.exp,
                max_health_base: p.max_health_base,
                exp_num: p.exp_num,
                exp_den: p.exp_den,
                kills: a.kills,
            },
        ),
        None => None,
    }
}

/// The tower a record rebuilds: recorded spatial state, health,
/// progression and kills; weapon, healer and beam states fresh, with
/// damage and heal amount derived from the recorded level.
pub open spec fn tower_spec(rec: SaveRecord) -> Agent {
    Agent {
        archetype: rec.archetype,
        pos: rec.pos,
        heading: (crate::angle::norm_ang(rec.heading as int)) as i64,
        vel: (Vec2I { x: 0, y: 0 }),
        health: (Health { val: rec.health_val, max: rec.health_max }),
        hostile: false,
        radius: TOWER_RADIUS,
        exp_value: TOWER_EXP_VALUE,
        target: None,
        shooter: if rec.archetype is Turret || rec.archetype is Shotgun
            || rec.archetype is MissileTower {
            Some(
                Shooter {
                    enabled: false,
                    cooldown: 0,
                    damage: damage_of(rec.archetype, rec.level as nat) as u64,
                },
            )
        } else {
            None
        },
        progression: Some(
            Progression {
                level: rec.level,
                exp: rec.exp,
                max_health_base: rec.max_health_base,
                exp_num: rec.exp_num,
                exp_den: rec.exp_den,
            },
        ),
        healer: if rec.archetype is Healer {
            Some(
                HealerState {
                    enabled: false,
                    cooldown: HEALER_START_COOLDOWN_MS,
                    heal_amt: heal_amt_of(rec.level as nat) as u64,
                },
            )
        } else {
            None
        },
        beam: if rec.archetype is BeamTower {
            Some(BeamState { shoot_phase: 0, cooldown: 0 })
        } else {
            None
        },
        kills: rec.kills,
        retreating: false,
    }
}

/// Rebuild and place a tower from a record; a malformed record is
/// rejected, and a handle is returned exactly when the record is
/// well formed.
pub fn spawn_from_record(w: &mut World, rec: SaveRecord) -> (r: Option<AgentId>)
    requires
        old(w).wf(),
        old(w).slots.len() < usize::MAX,
    ensures
        final(w).wf(),
        r is Some <==> record_valid(rec),
        r is Some ==> final(w).valid_id(r.unwrap()) && final(w).agent_of(r.unwrap())
            == tower_spec(rec),
        r is None ==> *final(w) == *old(w),
        forall|id: AgentId|
            old(w).valid_id(id) ==> final(w).valid_id(id) && final(w).agent_of(id) == old(
                w,
            ).agent_of(id),
        final(w).projectiles == old(w).projectiles,
        final(w).events == old(w).events,
        final(w).half_width == old(w).half_width,
        final(w).half_height == old(w).half_height,
{
    let known = match rec.archetype {
        Archetype::Turret | Archetype::Shotgun | Archetype::MissileTower | Archetype::Healer
            | Archetype::BeamTower => true,
        _ => false,
    };
    let pos_ok = -crate::geom::COORD_LIM <= rec.pos.x && rec.pos.x <= crate::geom::COORD_LIM
        && -crate::geom::COORD_LIM <= rec.pos.y && rec.pos.y <= crate::geom::COORD_LIM;
    let ok = known && pos_ok && -ANGLE_LIM <= rec.heading && rec.heading <= ANGLE_LIM
        && rec.health_val <= rec.health_max && rec.health_max <= HEALTH_LIM && rec.level
        <= LEVEL_CAP && rec.exp <= EXP_CAP && 0 < rec.max_health_base && rec.max_health_base
        <= STAT_BASE_LIM && 1 <= rec.exp_den && rec.exp_den <= rec.exp_num && rec.exp_num <= 6
        && rec.exp_num <= 2 * rec.exp_den;
    if !ok {
        return None;
    }
    let shooter = match rec.archetype {
        Archetype::Turret | Archetype::Shotgun | Archetype::MissileTower => Some(
            Shooter {
                enabled: false,
                cooldown: 0,
                damage: crate::events::damage_by_level(rec.archetype, rec.level),
            },
        ),
        _ => None,
    };
    let healer = match rec.archetype {
        Archetype::Healer => Some(
            HealerState {
                enabled: false,
                cooldown: HEALER_START_COOLDOWN_MS,
                heal_amt: crate::healer::heal_amt_by_level(rec.level),
            },
        ),
        _ => None,
    };
    let beam = match rec.archetype {
        Archetype::BeamTower => Some(BeamState { shoot_phase: 0, cooldown: 0 }),
        _ => None,
    };
    let a = Agent {
        archetype: rec.archetype,
        pos: rec.pos,
        heading: crate::angle::norm_angle(rec.heading),
        vel: Vec2I { x: 0, y: 0 },
        health: Health { val: rec.health_val, max: rec.health_max },
        hostile: false,
        radius: TOWER_RADIUS,
        exp_value: TOWER_EXP_VALUE,
        target: None,
        shooter,
        progression: Some(
            Progression {
                level: rec.level,
                exp: rec.exp,
                max_health_base: rec.max_health_base,
                exp_num: rec.exp_num,
                exp_den: rec.exp_den,
            },
        ),
        healer,
        beam,
        kills: rec.kills,
        retreating: false,
    };
    proof {
        crate::angle::lemma_norm_range(rec.heading as int);
    }
    Some(w.spawn_agent(a))
}

/// Law: persistence round-trips.  Serializing any well-formed tower
/// and rebuilding it through the spawn contract yields a tower whose
/// observable state — position, heading, health, progression and
/// kill count — comes back unchanged, and the serialized
/// record is always accepted back.
pub proof fn lemma_save_round_trip(a: Agent)
    requires
        agent_wf(a),
        tower_archetype(a.archetype),
        a.progression is Some,
    ensures
        record_valid(record_spec(a)),
        tower_spec(record_spec(a)).pos == a.pos,
        tower_spec(record_spec(a)).heading == a.heading,
        tower_spec(record_spec(a)).health == a.health,
        tower_spec(record_spec(a)).progression == a.progression,
        tower_spec(record_spec(a)).kills == a.kills,
        tower_spec(record_spec(a)).archetype == a.archetype,
{
    crate::angle::lemma_norm_identity(a.heading as int);
}

} // verus!
