//! Healing pulses.
//!
//! An enabled healer whose cooldown has run out heals
//! its latched patient by its heal amount (saturating at the
//! patient's maximum), resets its cooldown by one interval, and
//! queues a heal experience event worth three times the restored
//! hit-points (rounded up).  If the patient is gone or already full,
//! the cooldown snaps to zero instead.  Health never decreases in
//! this phase.

use crate::geom::DT_MAX;
use crate::health::{Health, HEAL_LIM};
use crate::world::{Agent, AgentId, ExpEvent, HealerState, Slot, World};
use vstd::pervasive::VecAdditionalExecFns;
use vstd::prelude::*;

verus! {

/// Milliseconds between heal pulses.
pub const HEALER_INTERVAL_MS: i64 = 2_000;

/// The base heal amount, in milli-hit-points.
pub const HEAL_BASE: u64 = 1_000;

/// The heal amount granted at `level`: `1 + 0.1 * level` hit-points,
/// in milli-hit-points.
pub open spec fn heal_amt_of(level: nat) -> int {
    HEAL_BASE + 100 * level
}

/// The heal amount for a level, exactly.
pub fn heal_amt_by_level(level: u32) -> (r: u64)
    requires
        level <= crate::progression::LEVEL_CAP,
    ensures
        r == heal_amt_of(level as nat),
        0 < r <= HEAL_LIM,
{
    HEAL_BASE + 100 * (level as u64)
}

/// The experience a heal of `healed` milli-hit-points awards: three
/// times the restored hit-points, rounded up.
pub open spec fn heal_exp_of(healed: int) -> int {
    (3 * healed + 999) / 1000
}

/// What a tick leaves of a healer's state: on a pulse the cooldown
/// grows by one interval; with nothing to heal it snaps to zero;
/// otherwise it ticks down; a disabled healer leaves it alone.
pub open spec fn healer_stepped(hs: HealerState, dt: int, hs2: HealerState) -> bool {
    &&& hs2.heal_amt == hs.heal_amt
    &&& hs2.enabled == hs.enabled
    &&& if !hs.enabled {
        hs2.cooldown == hs.cooldown
    } else if hs.cooldown > dt {
        hs2.cooldown == hs.cooldown - dt
    } else {
        hs2.cooldown == hs.cooldown + HEALER_INTERVAL_MS || hs2.cooldown == 0
    }
}

/// The latched patient can be healed: the handle still resolves and
/// the patient is not at full health.
pub open spec fn heal_patient_ok(slots: Seq<Slot>, t: Option<AgentId>) -> bool {
    match t {
        Some(id) => {
            &&& (id.idx as int) < slots.len()
            &&& slots[id.idx as int].gen == id.gen
            &&& slots[id.idx as int].agent is Some
            &&& slots[id.idx as int].agent.unwrap().health.val
                < slots[id.idx as int].agent.unwrap().health.max
        },
        None => false,
    }
}

/// What processing the first `i` slots leaves of the arena and the
/// event queue: each enabled healer in slot order either ticks its
/// cooldown down, or — once ready — heals its latched patient by its
/// heal amount (saturating at the patient's maximum), queues exactly
/// one heal event worth three times the restored hit-points (rounded
/// up), and rests for one interval; a ready healer with nobody to
/// heal snaps its cooldown to zero.
pub open spec fn heal_fold(slots: Seq<Slot>, events: Seq<ExpEvent>, dt: int, i: int) -> (
    Seq<Slot>,
    Seq<ExpEvent>,
)
    decreases i,
{
    if i <= 0 {
        (slots, events)
    } else {
        let r = heal_fold(slots, events, dt, i - 1);
        let s1 = r.0;
        let e1 = r.1;
        let j = i - 1;
        if 0 <= j < s1.len() && s1[j].agent is Some && s1[j].agent.unwrap().healer is Some {
            let a = s1[j].agent.unwrap();
            let hs = a.healer.unwrap();
            if !hs.enabled {
                (s1, e1)
            } else if hs.cooldown > dt {
                let nhs = HealerState { cooldown: (hs.cooldown - dt) as i64, ..hs };
                (s1.update(j, Slot { gen: s1[j].gen, agent: Some(Agent { healer: Some(nhs), ..a }) }), e1)
            } else if heal_patient_ok(s1, a.target) {
                let tid = a.target.unwrap();
                let pa = s1[tid.idx as int].agent.unwrap();
                let healed = if pa.health.val + hs.heal_amt >= pa.health.max {
                    pa.health.max - pa.health.val
                } else {
                    hs.heal_amt as int
                };
                let s2 = s1.update(
                    tid.idx as int,
                    Slot {
                        gen: s1[tid.idx as int].gen,
                        agent: Some(
                            Agent {
                                health: (Health {
                                    val: (pa.health.val + healed) as u64,
                                    max: pa.health.max,
                                }),
                                ..pa
                            },
                        ),
                    },
                );
                let a2 = s2[j].agent.unwrap();
                let nhs = HealerState { cooldown: (hs.cooldown + HEALER_INTERVAL_MS) as i64, ..hs };
                let s3 = s2.update(
                    j,
                    Slot { gen: s2[j].gen, agent: Some(Agent { healer: Some(nhs), ..a2 }) },
                );
                let e2 = e1.push(
                    ExpEvent {
                        target: (AgentId { idx: j as usize, gen: s1[j].gen }),
                        amount: ((3 * healed + 999) / 1000) as u64,
                        killed: false,
                    },
                );
                (s3, e2)
            } else {
                let nhs = HealerState { cooldown: 0, ..hs };
                (s1.update(j, Slot { gen: s1[j].gen, agent: Some(Agent { healer: Some(nhs), ..a }) }), e1)
            }
        } else {
            (s1, e1)
        }
    }
}

/// The healing phase: every healer ticks its cooldown and, when
/// ready, heals its patient.  Agents change only in health (upward,
/// never past the maximum) and healer state; every queued event is a
/// heal (non-kill) event; projectiles and bounds are untouched.
#[verifier::rlimit(100)]
pub fn heal_phase(w: &mut World, dt: i64)
    requires
        old(w).wf(),
        0 <= dt <= DT_MAX,
    ensures
        final(w).wf(),
        final(w).slots.len() == old(w).slots.len(),
        forall|j: int|
            0 <= j < old(w).slots.len() ==> (#[trigger] final(w).slots[j]).gen == old(
                w,
            ).slots[j].gen && (if old(w).slots[j].agent is Some {
                &&& final(w).slots[j].agent is Some
                &&& final(w).slots[j].agent.unwrap() == (Agent {
                    health: final(w).slots[j].agent.unwrap().health,
                    healer: final(w).slots[j].agent.unwrap().healer,
                    ..old(w).slots[j].agent.unwrap()
                })
                &&& final(w).slots[j].agent.unwrap().health.max == old(
                    w,
                ).slots[j].agent.unwrap().health.max
                &&& final(w).slots[j].agent.unwrap().health.val >= old(
                    w,
                ).slots[j].agent.unwrap().health.val
                &&& (match old(w).slots[j].agent.unwrap().healer {
                    Some(hs) => final(w).slots[j].agent.unwrap().healer is Some
                        && healer_stepped(
                        hs,
                        dt as int,
                        final(w).slots[j].agent.unwrap().healer.unwrap(),
                    ),
                    None => final(w).slots[j].agent.unwrap().healer is None,
                })
            } else {
                final(w).slots[j].agent is None
            }),
        final(w).projectiles == old(w).projectiles,
        final(w).half_width == old(w).half_width,
        final(w).half_height == old(w).half_height,
        old(w).events.len() <= final(w).events.len(),
        forall|e: int|
            0 <= e < old(w).events.len() ==> #[trigger] final(w).events[e] == old(w).events[e],
        forall|e: int|
            old(w).events.len() <= e < final(w).events.len()
                ==> (#[trigger] final(w).events[e]).killed == false,
        ({
            let f = heal_fold(old(w).slots@, old(w).events@, dt as int, old(w).slots.len() as int);
            final(w).slots@ == f.0 && final(w).events@ == f.1
        }),
{
    let n = w.slots.len();
    let mut i: usize = 0;
    while i < n
        invariant
            old(w).wf(),
            w.wf(),
            0 <= dt <= DT_MAX,
            n == w.slots.len() == old(w).slots.len(),
            i <= n,
            w.projectiles == old(w).projectiles,
            w.half_width == old(w).half_width,
            w.half_height == old(w).half_height,
            old(w).events.len() <= w.events.len(),
            forall|e: int|
                0 <= e < old(w).events.len() ==> #[trigger] w.events[e] == old(w).events[e],
            forall|e: int|
                old(w).events.len() <= e < w.events.len() ==> (#[trigger] w.events[e]).killed
                    == false,
            forall|j: int|
                0 <= j < n ==> (#[trigger] w.slots[j]).gen == old(w).slots[j].gen && (if old(
                    w,
                ).slots[j].agent is Some {
                    &&& w.slots[j].agent is Some
                    &&& w.slots[j].agent.unwrap() == (Agent {
                        health: w.slots[j].agent.unwrap().health,
                        healer: w.slots[j].agent.unwrap().healer,
                        ..old(w).slots[j].agent.unwrap()
                    })
                    &&& w.slots[j].agent.unwrap().health.max == old(
                        w,
                    ).slots[j].agent.unwrap().health.max
                    &&& w.slots[j].agent.unwrap().health.val >= old(
                        w,
                    ).slots[j].agent.unwrap().health.val
                    &&& (match old(w).slots[j].agent.unwrap().healer {
                        Some(hs) => w.slots[j].agent.unwrap().healer is Some && (if j < i {
                            healer_stepped(
                                hs,
                                dt as int,
                                w.slots[j].agent.unwrap().healer.unwrap(),
                            )
                        } else {
                            w.slots[j].agent.unwrap().healer.unwrap() == hs
                        }),
                        None => w.slots[j].agent.unwrap().healer is None,
                    })
                } else {
                    w.slots[j].agent is None
                }),
            ({
                let f = heal_fold(old(w).slots@, old(w).events@, dt as int, i as int);
                w.slots@ == f.0 && w.events@ == f.1
            }),
        decreases n - i,
    {
        let ghost f1 = heal_fold(old(w).slots@, old(w).events@, dt as int, i as int);
        let ghost f2 = heal_fold(old(w).slots@, old(w).events@, dt as int, i + 1);
        let slot = w.slots[i];
        if let Some(a) = slot.agent {
            if let Some(hs) = a.healer {
                if hs.enabled {
                    if hs.cooldown > dt {
                        let nhs = HealerState { cooldown: hs.cooldown - dt, ..hs };
                        let na = Agent { healer: Some(nhs), ..a };
                        w.slots.set(i, Slot { gen: slot.gen, agent: Some(na) });
                    } else {
                        // ready to pulse: try the latched patient
                        let mut pulsed = false;
                        if let Some(tid) = a.target {
                            if let Some(mut ta) = w.get_agent(tid) {
                                if ta.health.val < ta.health.max {
                                    let healed = ta.health.heal(hs.heal_amt);
                                    w.slots.set(
                                        tid.idx,
                                        Slot { gen: tid.gen, agent: Some(ta) },
                                    );
                                    let exp = (3 * healed + 999) / 1000;
                                    w.events.push(
                                        ExpEvent {
                                            target: crate::world::AgentId {
                                                idx: i,
                                                gen: slot.gen,
                                            },
                                            amount: exp,
                                            killed: false,
                                        },
                                    );
                                    pulsed = true;
                                }
                            }
                        }
                        let slot2 = w.slots[i];
                        let a2 = slot2.agent.unwrap();
                        let nhs = HealerState {
                            cooldown: if pulsed {
                                hs.cooldown + HEALER_INTERVAL_MS
                            } else {
                                0
                            },
                            ..hs
                        };
                        let na = Agent { healer: Some(nhs), ..a2 };
                        w.slots.set(i, Slot { gen: slot2.gen, agent: Some(na) });
                    }
                }
            }
        }
        i = i + 1;
    }
}

} // verus!
