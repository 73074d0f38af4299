//! Target acquisition and steering, one snapshot per tick.
//!
//! Every aiming agent reads the same world snapshot: decisions for
//! all agents are computed first and applied afterwards, so no agent
//! observes another agent's update from the same phase.  Towers and
//! healers latch their targets (no flicker); skirmishing enemies
//! latch the tower they harass; beam towers trigger a firing burst
//! when aligned and off cooldown.

use crate::angle::{angle_canonical, approach, approach_spec, ANGLE_LIM, TURN};
use crate::geom::{
    bearing, bearing_spec, clamp_i, dist_sq, distance_sq, iabs, in_coord_range, in_vel_range,
    mul_div_i64, mul_div_trunc, velocity_from_heading, Vec2I, DT_MAX, VEL_LIM,
};
use crate::rng::random_u32;
use crate::world::{
    agent_wf, Agent, Archetype, BeamState, Shooter, Slot, World,
};
use vstd::pervasive::VecAdditionalExecFns;
use vstd::prelude::*;

verus! {

/// Turn rate of turret-style towers and healers, in angle units per
/// second (half a turn per second).
pub const TOWER_TURN_RATE: i64 = 1_000_000;

/// Turn rate of beam towers, in angle units per second.
pub const BEAM_TURN_RATE: i64 = 500_000;

/// Per-tick turn step of the skirmishing enemy.
pub const AGILE_TURN_STEP: i64 = 20_000;

/// Per-tick turn step of the slow, sturdy enemy.
pub const STURDY_TURN_STEP: i64 = 6_666;

/// Movement speeds of the steered enemies, in position units per second.
pub const AGILE_SPEED: i64 = 200_000;

pub const STURDY_SPEED: i64 = 50_000;

pub const MISSILE_ENEMY_SPEED: i64 = 50_000;

/// Squared distances steering the skirmisher's approach/retreat
/// hysteresis and the sturdy enemy's standoff.
pub const AGILE_CLOSE_SQ: u128 = 40_000_000_000;

pub const AGILE_FAR_SQ: u128 = 250_000_000_000;

pub const STANDOFF_SQ: u128 = 62_500_000_000;

/// Squared reach of a healer's pulse.
pub const HEALER_RANGE_SQ: u128 = 90_000_000_000;

/// Squared reach of a beam.
pub const BEAM_RANGE_SQ: u128 = 1_000_000_000_000;

/// How long a beam burst lasts and how long the beam then rests, in
/// milliseconds.
pub const BEAM_DURATION_MS: i64 = 2_000;

pub const BEAM_INTERVAL_MS: i64 = 5_000;

/// An angular step scaled from a per-second rate and a tick length.
pub open spec fn turn_step_of(rate: int, dt: int) -> int {
    rate * dt / 1000
}

/// One rotation step toward a point: the next heading and whether
/// the heading now points at it.
pub open spec fn aim_step(heading: int, from: Vec2I, to: Vec2I, step: int) -> (int, bool) {
    approach_spec(heading, bearing_spec(to.x - from.x, to.y - from.y), step)
}

pub(crate) fn turn_step(rate: i64, dt: i64) -> (r: i64)
    requires
        0 <= rate <= TURN,
        0 <= dt <= DT_MAX,
    ensures
        r == turn_step_of(rate as int, dt as int),
        0 <= r <= ANGLE_LIM,
{
    proof {
        assert(rate * dt <= TURN * DT_MAX) by (nonlinear_arith)
            requires
                0 <= rate <= TURN,
                0 <= dt <= DT_MAX,
        ;
    }
    ((rate as u64) * (dt as u64) / 1000) as i64
}

/// Rotate `heading` toward the point `to` as seen from `from`.
pub(crate) fn aim_toward(heading: i64, from: Vec2I, to: Vec2I, step: i64) -> (r: (i64, bool))
    requires
        angle_canonical(heading as int),
        in_coord_range(from),
        in_coord_range(to),
        0 <= step <= ANGLE_LIM,
    ensures
        (r.0 as int, r.1) == aim_step(heading as int, from, to, step as int),
        angle_canonical(r.0 as int),
{
    let b = bearing(to.x - from.x, to.y - from.y);
    let r = approach(heading, b, step);
    proof {
        crate::angle::lemma_norm_range(b - heading);
        crate::angle::lemma_norm_range(heading - step);
        crate::angle::lemma_norm_range(heading + step);
    }
    r
}

/// The same shooter with only its enabled flag replaced.
pub open spec fn with_enabled(s: Option<Shooter>, en: bool) -> Option<Shooter> {
    match s {
        Some(x) => Some(Shooter { enabled: en, ..x }),
        None => None,
    }
}

/// The same healer state with only its enabled flag replaced.
pub open spec fn healer_with_enabled(
    s: Option<crate::world::HealerState>,
    en: bool,
) -> Option<crate::world::HealerState> {
    match s {
        Some(x) => Some(crate::world::HealerState { enabled: en, ..x }),
        None => None,
    }
}

/// `n` differs from `o` at most in the fields this phase may write:
/// target, heading, velocity, retreat flag, and the capability
/// states.
pub open spec fn same_but_aim(o: Agent, n: Agent) -> bool {
    n == (Agent {
        target: n.target,
        heading: n.heading,
        vel: n.vel,
        retreating: n.retreating,
        shooter: n.shooter,
        healer: n.healer,
        beam: n.beam,
        ..o
    })
}

/// A turret-style tower's decision: latch or acquire a hostile
/// target, rotate toward it at the tower turn rate, and enable the
/// weapon exactly on alignment.
pub open spec fn tower_decided(w: World, j: int, dt: int, n: Agent) -> bool {
    let a = w.agent_at(j);
    &&& same_but_aim(a, n)
    &&& n.vel == a.vel && n.retreating == a.retreating && n.healer == a.healer && n.beam == a.beam
    &&& w.selected_combat_ok(a.pos, a.target, true, None, n.target)
    &&& match n.target {
        Some(id) => {
            let r = aim_step(
                a.heading as int,
                a.pos,
                w.agent_of(id).pos,
                turn_step_of(TOWER_TURN_RATE as int, dt),
            );
            n.heading == r.0 && n.shooter == with_enabled(a.shooter, r.1)
        },
        None => n.heading == a.heading && n.shooter == with_enabled(a.shooter, false),
    }
}

/// A healer's decision: latch or acquire a damaged ally in range,
/// rotate toward it, and enable the heal pulse on alignment.
pub open spec fn healer_decided(w: World, j: int, dt: int, n: Agent) -> bool {
    let a = w.agent_at(j);
    &&& same_but_aim(a, n)
    &&& n.vel == a.vel && n.retreating == a.retreating && n.shooter == a.shooter && n.beam
        == a.beam
    &&& w.selected_heal_ok(a.pos, a.target, a.hostile, j, HEALER_RANGE_SQ, n.target)
    &&& match n.target {
        Some(id) => {
            let r = aim_step(
                a.heading as int,
                a.pos,
                w.agent_of(id).pos,
                turn_step_of(TOWER_TURN_RATE as int, dt),
            );
            n.heading == r.0 && n.healer == healer_with_enabled(a.healer, r.1)
        },
        None => n.heading == a.heading && n.healer == healer_with_enabled(a.healer, false),
    }
}

/// A beam tower's decision: latch or acquire a hostile target within
/// beam range, rotate toward it, and when aligned with the beam
/// rested, start a firing burst.
pub open spec fn beam_decided(w: World, j: int, dt: int, n: Agent) -> bool {
    let a = w.agent_at(j);
    &&& same_but_aim(a, n)
    &&& n.vel == a.vel && n.retreating == a.retreating && n.shooter == a.shooter && n.healer
        == a.healer
    &&& w.selected_combat_ok(a.pos, a.target, true, Some(BEAM_RANGE_SQ), n.target)
    &&& match n.target {
        Some(id) => {
            let r = aim_step(
                a.heading as int,
                a.pos,
                w.agent_of(id).pos,
                turn_step_of(BEAM_TURN_RATE as int, dt),
            );
            &&& n.heading == r.0
            &&& n.beam == (match a.beam {
                Some(b) => if r.1 && b.cooldown == 0 {
                    Some(BeamState { shoot_phase: BEAM_DURATION_MS, cooldown: BEAM_INTERVAL_MS })
                } else {
                    Some(b)
                },
                None => None::<BeamState>,
            })
        },
        None => n.heading == a.heading && n.beam == a.beam,
    }
}

/// The skirmisher's decision: harass the latched tower, fleeing
/// inside the close radius and re-approaching beyond the far radius,
/// and fire only while approaching and aligned.  It always moves
/// along its own heading.
pub open spec fn agile_decided(w: World, j: int, dt: int, n: Agent) -> bool {
    let a = w.agent_at(j);
    &&& same_but_aim(a, n)
    &&& n.healer == a.healer && n.beam == a.beam
    &&& w.selected_combat_ok(a.pos, a.target, false, None, n.target)
    &&& match n.target {
        Some(id) => {
            let tp = w.agent_of(id).pos;
            let d2 = dist_sq(a.pos, tp);
            let back = if d2 < AGILE_CLOSE_SQ {
                true
            } else if d2 > AGILE_FAR_SQ {
                false
            } else {
                a.retreating
            };
            let r = if back {
                approach_spec(
                    a.heading as int,
                    bearing_spec(a.pos.x - tp.x, a.pos.y - tp.y),
                    AGILE_TURN_STEP as int,
                )
            } else {
                aim_step(a.heading as int, a.pos, tp, AGILE_TURN_STEP as int)
            };
            &&& n.retreating == back
            &&& n.heading == r.0
            &&& n.shooter == with_enabled(a.shooter, r.1 && !back)
            &&& velocity_along(n.vel, n.heading as int, AGILE_SPEED as int)
        },
        None => {
            &&& n.retreating == a.retreating
            &&& n.heading == a.heading
            &&& n.shooter == a.shooter
            &&& velocity_along(n.vel, n.heading as int, AGILE_SPEED as int)
        },
    }
}

/// `v` is the velocity of magnitude `speed` along heading `h`.
pub open spec fn velocity_along(v: Vec2I, h: int, speed: int) -> bool {
    &&& v.x == mul_div_trunc(speed, crate::geom::cos_fp_spec(h), crate::geom::SCALE as int)
    &&& v.y == mul_div_trunc(speed, crate::geom::sin_fp_spec(h), crate::geom::SCALE as int)
}

/// The standoff enemies' decision (sturdy walker and missile
/// carrier): turn toward the latched tower, advance along the
/// heading while outside the standoff radius, stop inside it, and
/// fire when aligned.
pub open spec fn standoff_decided(w: World, j: int, dt: int, step: int, speed: int, n: Agent)
    -> bool {
    let a = w.agent_at(j);
    &&& same_but_aim(a, n)
    &&& n.healer == a.healer && n.beam == a.beam && n.retreating == a.retreating
    &&& w.selected_combat_ok(a.pos, a.target, false, None, n.target)
    &&& match n.target {
        Some(id) => {
            let tp = w.agent_of(id).pos;
            let r = aim_step(a.heading as int, a.pos, tp, step);
            &&& n.heading == r.0
            &&& n.shooter == with_enabled(a.shooter, r.1)
            &&& if dist_sq(a.pos, tp) > STANDOFF_SQ {
                velocity_along(n.vel, n.heading as int, speed)
            } else {
                n.vel == (Vec2I { x: 0, y: 0 })
            }
        },
        None => {
            &&& n.heading == a.heading
            &&& n.shooter == a.shooter
            &&& n.vel == (Vec2I { x: 0, y: 0 })
        },
    }
}

/// The plain enemies' decision: a random velocity drift; everything
/// else untouched.
pub open spec fn drift_decided(w: World, j: int, n: Agent) -> bool {
    let a = w.agent_at(j);
    &&& same_but_aim(a, n)
    &&& n.target == a.target && n.heading == a.heading && n.retreating == a.retreating
    &&& n.shooter == a.shooter && n.healer == a.healer && n.beam == a.beam
    &&& in_vel_range(n.vel)
}

/// The decision this phase owes for slot `j`: absent for empty
/// slots, a role-appropriate update otherwise.
pub open spec fn decided(w: World, j: int, dt: int, e: Option<Agent>) -> bool {
    if 0 <= j < w.slots.len() && w.slots[j].agent is Some {
        &&& e is Some
        &&& agent_wf(e.unwrap())
        &&& match w.agent_at(j).archetype {
            Archetype::Turret | Archetype::Shotgun | Archetype::MissileTower => tower_decided(
                w,
                j,
                dt,
                e.unwrap(),
            ),
            Archetype::Healer => healer_decided(w, j, dt, e.unwrap()),
            Archetype::BeamTower => beam_decided(w, j, dt, e.unwrap()),
            Archetype::AgileEnemy => agile_decided(w, j, dt, e.unwrap()),
            Archetype::SturdyEnemy => standoff_decided(
                w,
                j,
                dt,
                STURDY_TURN_STEP as int,
                STURDY_SPEED as int,
                e.unwrap(),
            ),
            Archetype::MissileEnemy => standoff_decided(
                w,
                j,
                dt,
                TURN as int,
                MISSILE_ENEMY_SPEED as int,
                e.unwrap(),
            ),
            Archetype::BasicEnemy | Archetype::BossEnemy => drift_decided(w, j, e.unwrap()),
        }
    } else {
        e is None
    }
}

/// One axis of the plain enemies' random drift: a spring toward
/// zero plus a random kick, damped, then clamped to the velocity
/// range.
pub open spec fn drift_axis_spec(v: int, dt: int, f: int) -> int {
    let kick = mul_div_trunc(f - 500_000, 3, 2);
    let vhalf = mul_div_trunc(v, 1, 2);
    let acc = kick - vhalf;
    let v1 = v + mul_div_trunc(acc, dt, 1000);
    let damp = if dt < 5000 {
        5000 - dt
    } else {
        0
    };
    clamp_i(mul_div_trunc(v1, damp, 5000), VEL_LIM as int)
}

fn clamp_vel(v: i64) -> (r: i64)
    ensures
        r == clamp_i(v as int, VEL_LIM as int),
{
    if v < -VEL_LIM {
        -VEL_LIM
    } else if v > VEL_LIM {
        VEL_LIM
    } else {
        v
    }
}

/// One axis of random drift, exactly as `drift_axis_spec` states.
pub fn drift_axis(v: i64, dt: i64, f: i64) -> (nv: i64)
    requires
        iabs(v as int) <= VEL_LIM,
        0 <= dt <= DT_MAX,
        0 <= f < 1_000_000,
    ensures
        nv == drift_axis_spec(v as int, dt as int, f as int),
        iabs(nv as int) <= VEL_LIM,
{
    let kick = mul_div_i64(f - 500_000, 3, 2);
    let vhalf = mul_div_i64(v, 1, 2);
    let acc = kick - vhalf;
    proof {
        assert(iabs(acc as int) * iabs(dt as int) <= 1_803_600_000_000_000) by (nonlinear_arith)
            requires
                iabs(acc as int) <= 501_000_000,
                0 <= dt <= DT_MAX,
        ;
    }
    let md = mul_div_i64(acc, dt, 1000);
    proof {
        vstd::arithmetic::div_mod::lemma_div_is_ordered(
            iabs(acc as int) * iabs(dt as int),
            1_803_600_000_000_000,
            1000,
        );
    }
    let v1 = v + md;
    let damp: i64 = if dt < 5000 {
        5000 - dt
    } else {
        0
    };
    proof {
        assert(iabs(v1 as int) * iabs(damp as int) <= i64::MAX) by (nonlinear_arith)
            requires
                iabs(v1 as int) <= 2_000_000_000_000,
                0 <= damp <= 5000,
        ;
    }
    clamp_vel(mul_div_i64(v1, damp, 5000))
}

/// The acquisition-and-steering phase: compute every agent's aiming
/// decision against one snapshot, then apply them all.  Positions,
/// health, progression, kill counts, projectiles and events are
/// untouched; each occupied slot receives exactly its decision.
#[verifier::rlimit(100)]
pub fn aim_phase(w: &mut World, dt: i64)
    requires
        old(w).wf(),
        0 <= dt <= DT_MAX,
    ensures
        final(w).wf(),
        final(w).slots.len() == old(w).slots.len(),
        forall|j: int|
            0 <= j < old(w).slots.len() ==> (#[trigger] final(w).slots[j]).gen == old(
                w,
            ).slots[j].gen && (if old(w).slots[j].agent is Some {
                final(w).slots[j].agent is Some && decided(
                    *old(w),
                    j,
                    dt as int,
                    Some(final(w).slots[j].agent.unwrap()),
                )
            } else {
                final(w).slots[j].agent is None
            }),
        final(w).projectiles == old(w).projectiles,
        final(w).events == old(w).events,
        final(w).half_width == old(w).half_width,
        final(w).half_height == old(w).half_height,
{
    let n = w.slots.len();
    let mut decisions: Vec<Option<Agent>> = Vec::new();
    let mut i: usize = 0;
    while i < n
        invariant
            w.wf(),
            0 <= dt <= DT_MAX,
            n == w.slots.len(),
            i <= n,
            decisions.len() == i,
            forall|m: int| 0 <= m < i ==> decided(*w, m, dt as int, #[trigger] decisions[m]),
        decreases n - i,
    {
        let slot = w.slots[i];
        if let Some(a) = slot.agent {
            let nd: Agent = match a.archetype {
                Archetype::Turret | Archetype::Shotgun | Archetype::MissileTower => {
                    let sel = w.select_combat_target(a.target, a.pos, true, None);
                    match sel {
                        Some(id) => {
                            let tp = w.get_agent(id).unwrap().pos;
                            let step = turn_step(TOWER_TURN_RATE, dt);
                            let (h, al) = aim_toward(a.heading, a.pos, tp, step);
                            Agent {
                                target: sel,
                                heading: h,
                                shooter: match a.shooter {
                                    Some(x) => Some(Shooter { enabled: al, ..x }),
                                    None => None,
                                },
                                ..a
                            }
                        },
                        None => Agent {
                            target: None,
                            shooter: match a.shooter {
                                Some(x) => Some(Shooter { enabled: false, ..x }),
                                None => None,
                            },
                            ..a
                        },
                    }
                },
                Archetype::Healer => {
                    let sel = w.select_heal_target(a.target, a.pos, a.hostile, i, HEALER_RANGE_SQ);
                    match sel {
                        Some(id) => {
                            let tp = w.get_agent(id).unwrap().pos;
                            let step = turn_step(TOWER_TURN_RATE, dt);
                            let (h, al) = aim_toward(a.heading, a.pos, tp, step);
                            Agent {
                                target: sel,
                                heading: h,
                                healer: match a.healer {
                                    Some(x) => Some(
                                        crate::world::HealerState { enabled: al, ..x },
                                    ),
                                    None => None,
                                },
                                ..a
                            }
                        },
                        None => Agent {
                            target: None,
                            healer: match a.healer {
                                Some(x) => Some(crate::world::HealerState { enabled: false, ..x }),
                                None => None,
                            },
                            ..a
                        },
                    }
                },
                Archetype::BeamTower => {
                    let sel = w.select_combat_target(a.target, a.pos, true, Some(BEAM_RANGE_SQ));
                    match sel {
                        Some(id) => {
                            let tp = w.get_agent(id).unwrap().pos;
                            let step = turn_step(BEAM_TURN_RATE, dt);
                            let (h, al) = aim_toward(a.heading, a.pos, tp, step);
                            Agent {
                                target: sel,
                                heading: h,
                                beam: match a.beam {
                                    Some(b) => if al && b.cooldown == 0 {
                                        Some(
                                            BeamState {
                                                shoot_phase: BEAM_DURATION_MS,
                                                cooldown: BEAM_INTERVAL_MS,
                                            },
                                        )
                                    } else {
                                        Some(b)
                                    },
                                    None => None,
                                },
                                ..a
                            }
                        },
                        None => Agent { target: None, ..a },
                    }
                },
                Archetype::AgileEnemy => {
                    let sel = w.select_combat_target(a.target, a.pos, false, None);
                    match sel {
                        Some(id) => {
                            let tp = w.get_agent(id).unwrap().pos;
                            let d2 = distance_sq(a.pos, tp);
                            let back = if d2 < AGILE_CLOSE_SQ {
                                true
                            } else if d2 > AGILE_FAR_SQ {
                                false
                            } else {
                                a.retreating
                            };
                            let (h, al) = if back {
                                let b = bearing(a.pos.x - tp.x, a.pos.y - tp.y);
                                let r = approach(a.heading, b, AGILE_TURN_STEP);
                                proof {
                                    crate::angle::lemma_norm_range(b - a.heading);
                                    crate::angle::lemma_norm_range(a.heading - AGILE_TURN_STEP);
                                    crate::angle::lemma_norm_range(a.heading + AGILE_TURN_STEP);
                                }
                                r
                            } else {
                                aim_toward(a.heading, a.pos, tp, AGILE_TURN_STEP)
                            };
                            Agent {
                                target: sel,
                                heading: h,
                                retreating: back,
                                shooter: match a.shooter {
                                    Some(x) => Some(Shooter { enabled: al && !back, ..x }),
                                    None => None,
                                },
                                vel: velocity_from_heading(h, AGILE_SPEED),
                                ..a
                            }
                        },
                        None => Agent {
                            target: None,
                            vel: velocity_from_heading(a.heading, AGILE_SPEED),
                            ..a
                        },
                    }
                },
                Archetype::SturdyEnemy | Archetype::MissileEnemy => {
                    let (step, speed) = if let Archetype::SturdyEnemy = a.archetype {
                        (STURDY_TURN_STEP, STURDY_SPEED)
                    } else {
                        (TURN, MISSILE_ENEMY_SPEED)
                    };
                    let sel = w.select_combat_target(a.target, a.pos, false, None);
                    match sel {
                        Some(id) => {
                            let tp = w.get_agent(id).unwrap().pos;
                            let (h, al) = aim_toward(a.heading, a.pos, tp, step);
                            let d2 = distance_sq(a.pos, tp);
                            Agent {
                                target: sel,
                                heading: h,
                                shooter: match a.shooter {
                                    Some(x) => Some(Shooter { enabled: al, ..x }),
                                    None => None,
                                },
                                vel: if d2 > STANDOFF_SQ {
                                    velocity_from_heading(h, speed)
                                } else {
                                    Vec2I { x: 0, y: 0 }
                                },
                                ..a
                            }
                        },
                        None => Agent { target: None, vel: Vec2I { x: 0, y: 0 }, ..a },
                    }
                },
                Archetype::BasicEnemy | Archetype::BossEnemy => {
                    let f1 = (random_u32() % 1_000_000) as i64;
                    let f2 = (random_u32() % 1_000_000) as i64;
                    Agent {
                        vel: Vec2I {
                            x: drift_axis(a.vel.x, dt, f1),
                            y: drift_axis(a.vel.y, dt, f2),
                        },
                        ..a
                    }
                },
            };
            decisions.push(Some(nd));
        } else {
            decisions.push(None);
        }
        i = i + 1;
    }
    let mut k: usize = 0;
    while k < n
        invariant
            0 <= dt <= DT_MAX,
            n == w.slots.len() == old(w).slots.len(),
            k <= n,
            decisions.len() == n,
            old(w).wf(),
            w.wf(),
            forall|m: int| 0 <= m < n ==> decided(*old(w), m, dt as int, #[trigger] decisions[m]),
            w.projectiles == old(w).projectiles,
            w.events == old(w).events,
            w.half_width == old(w).half_width,
            w.half_height == old(w).half_height,
            forall|j: int| k <= j < n ==> w.slots[j] == old(w).slots[j],
            forall|j: int|
                0 <= j < k ==> (#[trigger] w.slots[j]).gen == old(w).slots[j].gen && (if old(
                    w,
                ).slots[j].agent is Some {
                    w.slots[j].agent is Some && decided(
                        *old(w),
                        j,
                        dt as int,
                        Some(w.slots[j].agent.unwrap()),
                    )
                } else {
                    w.slots[j].agent is None
                }),
        decreases n - k,
    {
        if let Some(nd) = decisions[k] {
            let gen = w.slots[k].gen;
            w.slots.set(k, Slot { gen, agent: Some(nd) });
        }
        k = k + 1;
    }
}

} // verus!
