//! The experience pipeline: the event queue is drained once per
//! tick, each event crediting its beneficiary's progression.
//!
//! An event whose beneficiary no longer resolves is dropped
//! silently — a stale handle is expected, not an error.  A credited
//! agent gains experience (saturating at the cap), levels up through
//! every threshold the new total meets, is fully healed at its new
//! maximum on any level gain, and has its derived combat stats
//! (weapon damage, heal amount) recomputed from its new level.

use crate::healer::heal_amt_by_level;
use crate::progression::{
    max_health_of, scaled_stat, scaled_stat_of, threshold_reached, EXP_CAP,
};
use crate::weapon::missile_archetype;
use crate::world::{Agent, ExpEvent, HealerState, Shooter, Slot, World};
use vstd::pervasive::VecAdditionalExecFns;
use vstd::prelude::*;

verus! {

/// Base weapon damage, in milli-hit-points: heavy for missile
/// platforms, light for everything else.
pub const BULLET_DAMAGE_BASE: u64 = 1_000;

pub const MISSILE_DAMAGE_BASE: u64 = 30_000;

/// The weapon damage of an archetype at a level.
pub open spec fn damage_of(arch: crate::world::Archetype, level: nat) -> int {
    if missile_archetype(arch) {
        scaled_stat_of(MISSILE_DAMAGE_BASE as int, level)
    } else {
        scaled_stat_of(BULLET_DAMAGE_BASE as int, level)
    }
}

/// The weapon damage of an archetype at a level, exactly.
pub fn damage_by_level(arch: crate::world::Archetype, level: u32) -> (r: u64)
    requires
        level <= crate::progression::LEVEL_CAP,
    ensures
        r == damage_of(arch, level as nat),
        0 < r <= crate::health::HEALTH_LIM,
{
    let missile = match arch {
        crate::world::Archetype::MissileTower | crate::world::Archetype::MissileEnemy => true,
        _ => false,
    };
    if missile {
        scaled_stat(MISSILE_DAMAGE_BASE, level)
    } else {
        scaled_stat(BULLET_DAMAGE_BASE, level)
    }
}

/// What crediting one event to an agent owes: experience grows to
/// the saturated total, the level climbs through exactly the
/// thresholds the total meets, a level gain rebuilds and fills the
/// health pool and refreshes the derived stats, and nothing else
/// moves.
pub open spec fn credited_ok(a: Agent, e: ExpEvent, n: Agent) -> bool {
    match a.progression {
        None => n == a,
        Some(p) => {
            &&& n == (Agent {
                health: n.health,
                progression: n.progression,
                kills: n.kills,
                shooter: n.shooter,
                healer: n.healer,
                ..a
            })
            &&& n.progression is Some
            &&& {
                let p2 = n.progression.unwrap();
                &&& p2 == (crate::progression::Progression {
                    level: p2.level,
                    exp: p2.exp,
                    ..p
                })
                &&& p2.exp == if p.exp + e.amount >= EXP_CAP {
                    EXP_CAP as int
                } else {
                    p.exp + e.amount
                }
                &&& p2.level >= p.level
                &&& !threshold_reached(p2.exp as int, p2.level as nat)
                &&& forall|l: nat|
                    p.level <= l < p2.level ==> threshold_reached(p2.exp as int, l)
                &&& n.kills == if e.killed {
                    if a.kills < u64::MAX {
                        a.kills + 1
                    } else {
                        a.kills as int
                    }
                } else {
                    a.kills as int
                }
                &&& if p2.level > p.level {
                    &&& n.health.max == max_health_of(
                        p.max_health_base as int,
                        p.exp_num as int,
                        p.exp_den as int,
                        p2.level as nat,
                    )
                    &&& n.health.val == n.health.max
                    &&& n.shooter == (match a.shooter {
                        Some(s) => Some(
                            Shooter { damage: damage_of(a.archetype, p2.level as nat) as u64, ..s },
                        ),
                        None => None::<Shooter>,
                    })
                    &&& n.healer == (match a.healer {
                        Some(h) => Some(
                            HealerState {
                                heal_amt: crate::healer::heal_amt_of(p2.level as nat) as u64,
                                ..h
                            },
                        ),
                        None => None::<HealerState>,
                    })
                } else {
                    n.health == a.health && n.shooter == a.shooter && n.healer == a.healer
                }
            }
        },
    }
}

/// Credit one experience event; events whose beneficiary is gone
/// are dropped without effect.
fn apply_exp_event(w: &mut World, e: ExpEvent)
    requires
        old(w).wf(),
    ensures
        final(w).wf(),
        final(w).slots.len() == old(w).slots.len(),
        forall|j: int|
            0 <= j < old(w).slots.len() && j != e.target.idx ==> #[trigger] final(w).slots[j]
                == old(w).slots[j],
        final(w).slots[e.target.idx as int].gen == old(w).slots[e.target.idx as int].gen
            || e.target.idx >= old(w).slots.len(),
        old(w).valid_id(e.target) ==> final(w).slots[e.target.idx as int].agent is Some
            && credited_ok(
            old(w).agent_of(e.target),
            e,
            final(w).slots[e.target.idx as int].agent.unwrap(),
        ),
        !old(w).valid_id(e.target) ==> final(w).slots == old(w).slots,
        final(w).projectiles == old(w).projectiles,
        final(w).events == old(w).events,
        final(w).half_width == old(w).half_width,
        final(w).half_height == old(w).half_height,
{
    if let Some(a) = w.get_agent(e.target) {
        if let Some(mut p) = a.progression {
            let mut hp = a.health;
            p.gain(&mut hp, e.amount);
            let leveled = p.level > a.progression.unwrap().level;
            let kills = if e.killed {
                if a.kills < u64::MAX {
                    a.kills + 1
                } else {
                    a.kills
                }
            } else {
                a.kills
            };
            let shooter = if leveled {
                match a.shooter {
                    Some(s) => Some(
                        Shooter { damage: damage_by_level(a.archetype, p.level), ..s },
                    ),
                    None => None,
                }
            } else {
                a.shooter
            };
            let healer = if leveled {
                match a.healer {
                    Some(h) => Some(HealerState { heal_amt: heal_amt_by_level(p.level), ..h }),
                    None => None,
                }
            } else {
                a.healer
            };
            let na = Agent {
                health: hp,
                progression: Some(p),
                kills,
                shooter,
                healer,
                ..a
            };
            let gen = w.slots[e.target.idx].gen;
            w.slots.set(e.target.idx, Slot { gen, agent: Some(na) });
        }
    }
}

/// One event credited against the arena: a resolvable beneficiary
/// is credited exactly as `credited_ok` says; a stale one changes
/// nothing.
pub open spec fn credit_step_ok(s1: Seq<Slot>, s2: Seq<Slot>, e: ExpEvent) -> bool {
    let idx = e.target.idx as int;
    if idx < s1.len() && s1[idx].gen == e.target.gen && s1[idx].agent is Some {
        &&& s2.len() == s1.len()
        &&& forall|m: int| 0 <= m < s1.len() && m != idx ==> s2[m] == s1[m]
        &&& s2[idx].gen == s1[idx].gen
        &&& s2[idx].agent is Some
        &&& credited_ok(s1[idx].agent.unwrap(), e, s2[idx].agent.unwrap())
    } else {
        s2 == s1
    }
}

/// Pointwise relation the whole drain maintains: progression and
/// kill counters never move backwards, curves are stable, and
/// everything outside the experience pipeline's reach is untouched.
pub open spec fn exp_progressed(s1: Slot, s2: Slot) -> bool {
    &&& s2.gen == s1.gen
    &&& if s1.agent is Some {
        &&& s2.agent is Some
        &&& {
            let a = s1.agent.unwrap();
            let n = s2.agent.unwrap();
            &&& n == (Agent {
                health: n.health,
                progression: n.progression,
                kills: n.kills,
                shooter: n.shooter,
                healer: n.healer,
                ..a
            })
            &&& n.kills >= a.kills
            &&& match a.progression {
                None => n == a,
                Some(p) => {
                    &&& n.progression is Some
                    &&& n.progression.unwrap().level >= p.level
                    &&& n.progression.unwrap().exp >= p.exp
                    &&& n.progression.unwrap().max_health_base == p.max_health_base
                    &&& n.progression.unwrap().exp_num == p.exp_num
                    &&& n.progression.unwrap().exp_den == p.exp_den
                },
            }
        }
    } else {
        s2.agent is None
    }
}

/// Drain the event queue, crediting each event in arrival order.
pub fn drain_events(w: &mut World)
    requires
        old(w).wf(),
    ensures
        final(w).wf(),
        final(w).events.len() == 0,
        final(w).slots.len() == old(w).slots.len(),
        forall|j: int|
            0 <= j < old(w).slots.len() ==> exp_progressed(
                old(w).slots[j],
                #[trigger] final(w).slots[j],
            ),
        final(w).projectiles == old(w).projectiles,
        final(w).half_width == old(w).half_width,
        final(w).half_height == old(w).half_height,
        exists|tr: Seq<Seq<Slot>>|
            {
                &&& #[trigger] tr.len() == old(w).events.len() + 1
                &&& tr[0] == old(w).slots@
                &&& final(w).slots@ == tr[old(w).events.len() as int]
                &&& forall|k: int|
                    0 <= k < old(w).events.len() ==> credit_step_ok(
                        tr[k],
                        #[trigger] tr[k + 1],
                        old(w).events[k],
                    )
            },
{
    let mut queue: Vec<ExpEvent> = Vec::new();
    core::mem::swap(&mut queue, &mut w.events);
    let ghost q0 = queue@;
    let n = queue.len();
    let mut rev: Vec<ExpEvent> = Vec::new();
    while queue.len() > 0
        invariant
            queue.len() + rev.len() == n,
            q0.len() == n,
            forall|i: int| 0 <= i < queue.len() ==> #[trigger] queue[i] == q0[i],
            forall|i: int| 0 <= i < rev.len() ==> #[trigger] rev[i] == q0[n - 1 - i],
        decreases queue.len(),
    {
        let e = queue.pop().unwrap();
        rev.push(e);
    }
    let ghost mut tr: Seq<Seq<Slot>> = seq![old(w).slots@];
    let mut idx: usize = 0;
    while rev.len() > 0
        invariant
            old(w).wf(),
            w.wf(),
            w.events.len() == 0,
            w.slots.len() == old(w).slots.len(),
            q0.len() == n,
            idx == n - rev.len(),
            idx <= n,
            forall|i: int| 0 <= i < rev.len() ==> #[trigger] rev[i] == q0[n - 1 - i],
            tr.len() == idx + 1,
            tr[0] == old(w).slots@,
            tr[idx as int] == w.slots@,
            forall|k: int|
                0 <= k < idx ==> credit_step_ok(tr[k], #[trigger] tr[k + 1], q0[k]),
            forall|j: int|
                0 <= j < old(w).slots.len() ==> exp_progressed(
                    old(w).slots[j],
                    #[trigger] w.slots[j],
                ),
            w.projectiles == old(w).projectiles,
            w.half_width == old(w).half_width,
            w.half_height == old(w).half_height,
        decreases rev.len(),
    {
        let e = rev.pop().unwrap();
        proof {
            assert(e == q0[idx as int]);
        }
        let ghost w_before = *w;
        apply_exp_event(w, e);
        proof {
            assert forall|j: int|
                0 <= j < old(w).slots.len() implies exp_progressed(
                old(w).slots[j],
                #[trigger] w.slots[j],
            ) by {
                assert(exp_progressed(old(w).slots[j], w_before.slots[j]));
                if j != e.target.idx {
                    assert(w.slots[j] == w_before.slots[j]);
                }
            }
            assert(credit_step_ok(w_before.slots@, w.slots@, e)) by {
                if old_valid_in(w_before.slots@, e.target) {
                } else {
                    assert(w.slots == w_before.slots);
                }
            }
            tr = tr.push(w.slots@);
        }
        idx = idx + 1;
    }
    proof {
        assert(idx == n);
        assert(q0 == old(w).events@);
    }
}

/// The handle resolves against the arena sequence.
pub open spec fn old_valid_in(slots: Seq<Slot>, id: crate::world::AgentId) -> bool {
    (id.idx as int) < slots.len() && slots[id.idx as int].gen == id.gen
        && slots[id.idx as int].agent is Some
}

} // verus!
