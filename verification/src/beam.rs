//! Beam weapons: burst timing and corridor damage.
//!
//! A beam tower that was triggered by the aiming phase burns for a
//! fixed duration.  While burning, every living hostile agent whose
//! centre lies within its own hit radius of the beam line — between
//! the tower and the beam's reach — takes the beam's
//! damage-per-second times the elapsed time.  A burst that empties a
//! pool queues a kill event for the tower.  Health never increases
//! here.

use crate::collision::healths_decreased;
use crate::geom::{cos_fp_spec, iabs, in_coord_range, sin_fp_spec, Vec2I, DT_MAX, SCALE};
use crate::progression::scaled_stat;
use crate::health::Health;
use crate::world::{Agent, AgentId, BeamState, ExpEvent, Slot, World};
use vstd::pervasive::VecAdditionalExecFns;
use vstd::prelude::*;

verus! {

/// Reach of a beam, in position units.
pub const BEAM_RANGE: i64 = 1_000_000;

/// Base damage per second of a beam, in milli-hit-points.
pub const BEAM_BASE_DPS: u64 = 50_000;

/// The beam's damage per second at a level, exactly: the base DPS
/// scaled by the level curve.
pub fn beam_dps_by_level(level: u32) -> (r: u64)
    requires
        level <= crate::progression::LEVEL_CAP,
    ensures
        r == crate::progression::scaled_stat_of(BEAM_BASE_DPS as int, level as nat),
        0 < r,
{
    scaled_stat(BEAM_BASE_DPS, level)
}

/// Truncating signed division.
pub open spec fn tdiv(a: int, d: int) -> int {
    if a >= 0 {
        a / d
    } else {
        -((-a) / d)
    }
}

/// The point `tpos` lies inside the beam corridor of half-width
/// `radius` cast from `pos` along `heading`: its projection onto the
/// beam direction falls between the emitter and the beam's reach,
/// and its perpendicular offset is within `radius`.
pub open spec fn in_corridor(pos: Vec2I, heading: int, tpos: Vec2I, radius: int) -> bool {
    let dx = tpos.x - pos.x;
    let dy = tpos.y - pos.y;
    let c = cos_fp_spec(heading);
    let s = sin_fp_spec(heading);
    let dot = tdiv(dx * c + dy * s, SCALE as int);
    let px = dx - tdiv(dot * c, SCALE as int);
    let py = dy - tdiv(dot * s, SCALE as int);
    &&& 0 <= dot <= BEAM_RANGE
    &&& px * px + py * py <= radius * radius
}

fn div_trunc_128(a: i128, d: i128) -> (r: i128)
    requires
        0 < d,
        -170_000_000_000_000_000_000_000_000_000_000_000_000 <= a
            <= 170_000_000_000_000_000_000_000_000_000_000_000_000,
    ensures
        r == tdiv(a as int, d as int),
        iabs(r as int) <= iabs(a as int),
{
    proof {
        vstd::arithmetic::div_mod::lemma_div_nonincreasing(
            if a >= 0 {
                a as int
            } else {
                -(a as int)
            },
            d as int,
        );
        vstd::arithmetic::div_mod::lemma_div_pos_is_pos(
            if a >= 0 {
                a as int
            } else {
                -(a as int)
            },
            d as int,
        );
    }
    let ua: u128 = if a < 0 {
        (-a) as u128
    } else {
        a as u128
    };
    let q: u128 = ua / (d as u128);
    if a < 0 {
        -(q as i128)
    } else {
        q as i128
    }
}

/// Whether the beam from `pos` along `heading` strikes a target of
/// hit radius `radius` centred at `tpos`.
pub fn beam_reaches(pos: Vec2I, heading: i64, tpos: Vec2I, radius: i64) -> (r: bool)
    requires
        in_coord_range(pos),
        in_coord_range(tpos),
        crate::angle::angle_canonical(heading as int),
        0 < radius <= crate::geom::SIZE_LIM,
    ensures
        r == in_corridor(pos, heading as int, tpos, radius as int),
{
    let c = crate::geom::cos_fp(heading);
    let s = crate::geom::sin_fp(heading);
    let dx: i128 = tpos.x as i128 - pos.x as i128;
    let dy: i128 = tpos.y as i128 - pos.y as i128;
    proof {
        assert(-2_000_000_000_000_000_000 <= (dx as int) * (c as int)
            <= 2_000_000_000_000_000_000) by (nonlinear_arith)
            requires
                iabs(dx as int) <= 2_000_000_000_000,
                iabs(c as int) <= 1_000_000,
        ;
        assert(-2_000_000_000_000_000_000 <= (dy as int) * (s as int)
            <= 2_000_000_000_000_000_000) by (nonlinear_arith)
            requires
                iabs(dy as int) <= 2_000_000_000_000,
                iabs(s as int) <= 1_000_000,
        ;
    }
    let num: i128 = dx * (c as i128) + dy * (s as i128);
    let dot: i128 = div_trunc_128(num, SCALE as i128);
    if dot < 0 || dot > BEAM_RANGE as i128 {
        proof {
            assert(!in_corridor(pos, heading as int, tpos, radius as int));
        }
        return false;
    }
    proof {
        assert(-1_000_000_000_000_000_000 <= (dot as int) * (c as int)
            <= 1_000_000_000_000_000_000) by (nonlinear_arith)
            requires
                iabs(dot as int) <= 1_000_000,
                iabs(c as int) <= 1_000_000,
        ;
        assert(-1_000_000_000_000_000_000 <= (dot as int) * (s as int)
            <= 1_000_000_000_000_000_000) by (nonlinear_arith)
            requires
                iabs(dot as int) <= 1_000_000,
                iabs(s as int) <= 1_000_000,
        ;
    }
    let px: i128 = dx - div_trunc_128(dot * (c as i128), SCALE as i128);
    let py: i128 = dy - div_trunc_128(dot * (s as i128), SCALE as i128);
    proof {
        assert(0 <= (px as int) * (px as int) <= 17_000_000_000_000_000_000_000_000_000)
            by (nonlinear_arith)
            requires
                iabs(px as int) <= 4_000_000_000_000,
        ;
        assert(0 <= (py as int) * (py as int) <= 17_000_000_000_000_000_000_000_000_000)
            by (nonlinear_arith)
            requires
                iabs(py as int) <= 4_000_000_000_000,
        ;
        assert(0 <= (radius as int) * (radius as int) <= 1_000_000_000_000_000_000)
            by (nonlinear_arith)
            requires
                0 < radius <= 1_000_000_000,
        ;
    }
    (px * px + py * py) as u128 <= ((radius as u128) * (radius as u128))
}

/// What one tick leaves of a beam state: the rest cooldown ticks
/// down (floored at zero) and the burst phase ticks down (floored at
/// zero).
pub open spec fn beam_ticked(b: BeamState, dt: int) -> BeamState {
    BeamState {
        cooldown: if b.cooldown - dt < 0 {
            0
        } else {
            (b.cooldown - dt) as i64
        },
        shoot_phase: if b.shoot_phase - dt < 0 {
            0
        } else {
            (b.shoot_phase - dt) as i64
        },
    }
}

/// The beam is burning this tick: its burst phase outlasts the tick.
pub open spec fn beam_active(b: BeamState, dt: int) -> bool {
    b.shoot_phase > dt
}

/// What sweeping a burning beam across the first `j` slots leaves of
/// the arena and the event queue: every living hostile agent whose
/// centre lies in the corridor loses exactly `dmg` (saturating at
/// zero), with one kill event for `owner` per emptied pool.
pub open spec fn beam_sweep(
    slots: Seq<Slot>,
    events: Seq<ExpEvent>,
    pos: Vec2I,
    heading: int,
    dmg: u64,
    owner: AgentId,
    j: int,
) -> (Seq<Slot>, Seq<ExpEvent>)
    decreases j,
{
    if j <= 0 {
        (slots, events)
    } else {
        let r = beam_sweep(slots, events, pos, heading, dmg, owner, j - 1);
        let s1 = r.0;
        let e1 = r.1;
        let m = j - 1;
        if 0 <= m < s1.len() && s1[m].agent is Some && s1[m].agent.unwrap().health.val > 0
            && s1[m].agent.unwrap().hostile && in_corridor(
            pos,
            heading,
            s1[m].agent.unwrap().pos,
            s1[m].agent.unwrap().radius as int,
        ) {
            let a = s1[m].agent.unwrap();
            let nv = if dmg >= a.health.val {
                0u64
            } else {
                (a.health.val - dmg) as u64
            };
            let s2 = s1.update(
                m,
                Slot {
                    gen: s1[m].gen,
                    agent: Some(Agent { health: (Health { val: nv, max: a.health.max }), ..a }),
                },
            );
            let e2 = if dmg >= a.health.val {
                e1.push(ExpEvent { target: owner, amount: a.exp_value, killed: true })
            } else {
                e1
            };
            (s2, e2)
        } else {
            (s1, e1)
        }
    }
}

/// What the whole beam phase leaves of the arena and the event
/// queue: each beam ticks its burst and rest timers, and each beam
/// that is burning sweeps its level-scaled damage-per-second times
/// the elapsed time across the arena.
pub open spec fn beam_fold(slots: Seq<Slot>, events: Seq<ExpEvent>, dt: int, i: int) -> (
    Seq<Slot>,
    Seq<ExpEvent>,
)
    decreases i,
{
    if i <= 0 {
        (slots, events)
    } else {
        let r = beam_fold(slots, events, dt, i - 1);
        let s1 = r.0;
        let e1 = r.1;
        let j = i - 1;
        if 0 <= j < s1.len() && s1[j].agent is Some && s1[j].agent.unwrap().beam is Some {
            let a = s1[j].agent.unwrap();
            let b = a.beam.unwrap();
            let s2 = s1.update(
                j,
                Slot { gen: s1[j].gen, agent: Some(Agent { beam: Some(beam_ticked(b, dt)), ..a }) },
            );
            if beam_active(b, dt) {
                let level = if a.progression is Some {
                    a.progression.unwrap().level as nat
                } else {
                    0
                };
                let d = crate::progression::scaled_stat_of(BEAM_BASE_DPS as int, level) * dt
                    / 1000;
                let dmg = (if d > u64::MAX {
                    u64::MAX as int
                } else {
                    d
                }) as u64;
                beam_sweep(
                    s2,
                    e1,
                    a.pos,
                    a.heading as int,
                    dmg,
                    AgentId { idx: j as usize, gen: s1[j].gen },
                    s2.len() as int,
                )
            } else {
                (s2, e1)
            }
        } else {
            (s1, e1)
        }
    }
}

/// Damage every living hostile agent inside the corridor, queueing a
/// kill event for `owner` on each kill.  Health never increases;
/// nothing but health changes; all queued events are kill events.
fn beam_damage(w: &mut World, pos: Vec2I, heading: i64, damage: u64,
    owner: crate::world::AgentId)
    requires
        old(w).wf(),
        in_coord_range(pos),
        crate::angle::angle_canonical(heading as int),
    ensures
        final(w).wf(),
        healths_decreased(*old(w), *final(w)),
        final(w).projectiles == old(w).projectiles,
        final(w).half_width == old(w).half_width,
        final(w).half_height == old(w).half_height,
        old(w).events.len() <= final(w).events.len(),
        forall|e: int|
            0 <= e < old(w).events.len() ==> #[trigger] final(w).events[e] == old(w).events[e],
        forall|e: int|
            old(w).events.len() <= e < final(w).events.len()
                ==> (#[trigger] final(w).events[e]).killed == true,
        ({
            let f = beam_sweep(
                old(w).slots@,
                old(w).events@,
                pos,
                heading as int,
                damage,
                owner,
                old(w).slots.len() as int,
            );
            final(w).slots@ == f.0 && final(w).events@ == f.1
        }),
{
    let n = w.slots.len();
    let mut j: usize = 0;
    while j < n
        invariant
            old(w).wf(),
            w.wf(),
            n == w.slots.len() == old(w).slots.len(),
            j <= n,
            in_coord_range(pos),
            crate::angle::angle_canonical(heading as int),
            healths_decreased(*old(w), *w),
            w.projectiles == old(w).projectiles,
            w.half_width == old(w).half_width,
            w.half_height == old(w).half_height,
            old(w).events.len() <= w.events.len(),
            forall|e: int|
                0 <= e < old(w).events.len() ==> #[trigger] w.events[e] == old(w).events[e],
            forall|e: int|
                old(w).events.len() <= e < w.events.len() ==> (#[trigger] w.events[e]).killed
                    == true,
            ({
                let f = beam_sweep(
                    old(w).slots@,
                    old(w).events@,
                    pos,
                    heading as int,
                    damage,
                    owner,
                    j as int,
                );
                w.slots@ == f.0 && w.events@ == f.1
            }),
        decreases n - j,
    {
        let slot = w.slots[j];
        if let Some(a) = slot.agent {
            if a.health.val > 0 && a.hostile {
                if beam_reaches(pos, heading, a.pos, a.radius) {
                    let mut na = a;
                    let killed = na.health.apply_damage(damage);
                    w.slots.set(j, Slot { gen: slot.gen, agent: Some(na) });
                    if killed {
                        w.events.push(
                            ExpEvent { target: owner, amount: na.exp_value, killed: true },
                        );
                    }
                }
            }
        }
        j = j + 1;
    }
}

/// The beam phase: tick every beam's burst and rest timers, and for
/// each beam that is burning, apply its level-scaled
/// damage-per-second (times the elapsed time) to every living
/// hostile in its corridor.  Agents change only in health (downward)
/// and beam state (exactly one tick); every queued event is a kill.
#[verifier::rlimit(100)]
pub fn beam_phase(w: &mut World, dt: i64)
    requires
        old(w).wf(),
        0 < dt <= DT_MAX,
    ensures
        final(w).wf(),
        final(w).slots.len() == old(w).slots.len(),
        forall|j: int|
            0 <= j < old(w).slots.len() ==> (#[trigger] final(w).slots[j]).gen == old(
                w,
            ).slots[j].gen && (if old(w).slots[j].agent is Some {
                &&& final(w).slots[j].agent is Some
                &&& final(w).slots[j].agent.unwrap() == (Agent {
                    health: final(w).slots[j].agent.unwrap().health,
                    beam: final(w).slots[j].agent.unwrap().beam,
                    ..old(w).slots[j].agent.unwrap()
                })
                &&& final(w).slots[j].agent.unwrap().health.max == old(
                    w,
                ).slots[j].agent.unwrap().health.max
                &&& final(w).slots[j].agent.unwrap().health.val <= old(
                    w,
                ).slots[j].agent.unwrap().health.val
                &&& final(w).slots[j].agent.unwrap().beam == (match old(
                    w,
                ).slots[j].agent.unwrap().beam {
                    Some(b) => Some(beam_ticked(b, dt as int)),
                    None => None::<BeamState>,
                })
            } else {
                final(w).slots[j].agent is None
            }),
        final(w).projectiles == old(w).projectiles,
        final(w).half_width == old(w).half_width,
        final(w).half_height == old(w).half_height,
        old(w).events.len() <= final(w).events.len(),
        forall|e: int|
            0 <= e < old(w).events.len() ==> #[trigger] final(w).events[e] == old(w).events[e],
        forall|e: int|
            old(w).events.len() <= e < final(w).events.len()
                ==> (#[trigger] final(w).events[e]).killed == true,
        ({
            let f = beam_fold(old(w).slots@, old(w).events@, dt as int, old(w).slots.len() as int);
            final(w).slots@ == f.0 && final(w).events@ == f.1
        }),
{
    let n = w.slots.len();
    let mut i: usize = 0;
    while i < n
        invariant
            old(w).wf(),
            w.wf(),
            0 < dt <= DT_MAX,
            n == w.slots.len() == old(w).slots.len(),
            i <= n,
            w.projectiles == old(w).projectiles,
            w.half_width == old(w).half_width,
            w.half_height == old(w).half_height,
            old(w).events.len() <= w.events.len(),
            forall|e: int|
                0 <= e < old(w).events.len() ==> #[trigger] w.events[e] == old(w).events[e],
            forall|e: int|
                old(w).events.len() <= e < w.events.len() ==> (#[trigger] w.events[e]).killed
                    == true,
            forall|j: int|
                0 <= j < n ==> (#[trigger] w.slots[j]).gen == old(w).slots[j].gen && (if old(
                    w,
                ).slots[j].agent is Some {
                    &&& w.slots[j].agent is Some
                    &&& w.slots[j].agent.unwrap() == (Agent {
                        health: w.slots[j].agent.unwrap().health,
                        beam: w.slots[j].agent.unwrap().beam,
                        ..old(w).slots[j].agent.unwrap()
                    })
                    &&& w.slots[j].agent.unwrap().health.max == old(
                        w,
                    ).slots[j].agent.unwrap().health.max
                    &&& w.slots[j].agent.unwrap().health.val <= old(
                        w,
                    ).slots[j].agent.unwrap().health.val
                    &&& w.slots[j].agent.unwrap().beam == (if j < i {
                        match old(w).slots[j].agent.unwrap().beam {
                            Some(b) => Some(beam_ticked(b, dt as int)),
                            None => None::<BeamState>,
                        }
                    } else {
                        old(w).slots[j].agent.unwrap().beam
                    })
                } else {
                    w.slots[j].agent is None
                }),
            ({
                let f = beam_fold(old(w).slots@, old(w).events@, dt as int, i as int);
                w.slots@ == f.0 && w.events@ == f.1
            }),
        decreases n - i,
    {
        let ghost f1 = beam_fold(old(w).slots@, old(w).events@, dt as int, i as int);
        let ghost f2 = beam_fold(old(w).slots@, old(w).events@, dt as int, i + 1);
        let slot = w.slots[i];
        if let Some(a) = slot.agent {
            if let Some(b) = a.beam {
                let nb = BeamState {
                    cooldown: if b.cooldown - dt < 0 {
                        0
                    } else {
                        b.cooldown - dt
                    },
                    shoot_phase: if b.shoot_phase - dt < 0 {
                        0
                    } else {
                        b.shoot_phase - dt
                    },
                };
                let active = b.shoot_phase > dt;
                let na = Agent { beam: Some(nb), ..a };
                w.slots.set(i, Slot { gen: slot.gen, agent: Some(na) });
                if active {
                    let level = match a.progression {
                        Some(p) => p.level,
                        None => 0,
                    };
                    proof {
                        if a.progression is Some {
                            assert(crate::progression::progression_wf(a.progression.unwrap()));
                        }
                    }
                    let dps = scaled_stat(BEAM_BASE_DPS, level);
                    proof {
                        assert((dps as int) * (dt as int) <= 0xffff_ffff_ffff_ffff_ffff_ffff)
                            by (nonlinear_arith)
                            requires
                                0 <= dps <= crate::health::HEALTH_LIM,
                                0 <= dt <= DT_MAX,
                        ;
                    }
                    let dmg128: u128 = (dps as u128) * (dt as u128) / 1000;
                    let dmg: u64 = if dmg128 > u64::MAX as u128 {
                        u64::MAX
                    } else {
                        dmg128 as u64
                    };
                    let ghost w_ticked = *w;
                    beam_damage(w, a.pos, a.heading, dmg,
                        crate::world::AgentId { idx: i, gen: slot.gen });
                    proof {
                        assert(w_ticked.slots@ == f1.0.update(
                            i as int,
                            Slot {
                                gen: f1.0[i as int].gen,
                                agent: Some(
                                    Agent { beam: Some(beam_ticked(b, dt as int)), ..a },
                                ),
                            },
                        ));
                        assert(w.slots@ == f2.0 && w.events@ == f2.1);
                    }
                }
            }
        }
        i = i + 1;
    }
}

} // verus!
