//! One simulation tick, in the fixed subsystem order: wave spawning,
//! target acquisition and steering, fire control, motion, homing
//! guidance, collision resolution, beam and heal pulses, the
//! experience pipeline, and finally deferred destruction.
//!
//! The tick's contract names one relation per phase and chains them
//! through the intermediate worlds, so the whole tick is pinned to
//! the composition of its phases' contracts.  The experience events
//! that the combat phases queued are handed back to the caller (for
//! score keeping) before the progression pipeline consumes them.

use crate::aim::decided;
use crate::collision::{healths_decreased, overlapped_by_any, resolve_fold};
use crate::events::{credit_step_ok, exp_progressed};
use crate::geom::DT_MAX;
use crate::motion::{agent_moved, projectile_moved};
use crate::spawner::{hostiles_upto, is_spawned_enemy, SPAWN_INSET, MAX_ENEMIES};
use crate::weapon::{appended_shot_ok, shooter_ticked, shots_upto};
use crate::world::{slot_after_commit, Agent, AgentId, ExpEvent, Projectile, Slot, World};
use vstd::prelude::*;

verus! {

/// What the spawning step leaves: with the round not running, the
/// world untouched; otherwise existing agents preserved, each new
/// agent a fresh hostile of an unlocked archetype at the playfield
/// edge, and the hostile population within its ceiling.
pub open spec fn spawn_rel(w1: World, w2: World, difficulty: int, running: bool) -> bool {
    if !running {
        w2 == w1
    } else {
        &&& hostiles_upto(w2.slots@, w2.slots.len() as int) <= (if hostiles_upto(
            w1.slots@,
            w1.slots.len() as int,
        ) >= MAX_ENEMIES {
            hostiles_upto(w1.slots@, w1.slots.len() as int)
        } else {
            MAX_ENEMIES as int
        })
        &&& forall|id: AgentId|
            w1.valid_id(id) ==> w2.valid_id(id) && w2.agent_of(id) == w1.agent_of(id)
        &&& forall|j: int|
            0 <= j < w2.slots.len() && (j >= w1.slots.len() || w1.slots[j].agent is None) && (
            #[trigger] w2.slots[j]).agent is Some ==> is_spawned_enemy(
                w1.half_width as int,
                w1.half_height as int,
                difficulty,
                w2.slots[j].agent.unwrap(),
            )
        &&& w2.projectiles == w1.projectiles
        &&& w2.events == w1.events
        &&& w2.half_width == w1.half_width
        &&& w2.half_height == w1.half_height
    }
}

/// What the acquisition-and-steering step leaves: every occupied
/// slot holds exactly its aiming decision against the `w1` snapshot.
pub open spec fn aim_rel(w1: World, w2: World, dt: int) -> bool {
    &&& w2.slots.len() == w1.slots.len()
    &&& forall|j: int|
        0 <= j < w1.slots.len() ==> (#[trigger] w2.slots[j]).gen == w1.slots[j].gen && (if w1
            .slots[j].agent is Some {
            w2.slots[j].agent is Some && decided(w1, j, dt, Some(w2.slots[j].agent.unwrap()))
        } else {
            w2.slots[j].agent is None
        })
    &&& w2.projectiles == w1.projectiles
    &&& w2.events == w1.events
    &&& w2.half_width == w1.half_width
    &&& w2.half_height == w1.half_height
}

/// What the fire-control step leaves: every shooter ticked, the owed
/// number of pattern shots appended.
pub open spec fn fire_rel(w1: World, w2: World, dt: int) -> bool {
    &&& w2.slots.len() == w1.slots.len()
    &&& forall|j: int|
        0 <= j < w1.slots.len() ==> (#[trigger] w2.slots[j]).gen == w1.slots[j].gen && (if w1
            .slots[j].agent is Some {
            &&& w2.slots[j].agent is Some
            &&& w2.slots[j].agent.unwrap() == (Agent {
                shooter: w2.slots[j].agent.unwrap().shooter,
                ..w1.slots[j].agent.unwrap()
            })
            &&& shooter_ticked(w1.slots[j].agent.unwrap(), dt, w2.slots[j].agent.unwrap().shooter)
        } else {
            w2.slots[j].agent is None
        })
    &&& w2.projectiles.len() == w1.projectiles.len() + shots_upto(w1, dt, w1.slots.len() as int)
    &&& forall|m: int|
        0 <= m < w1.projectiles.len() ==> #[trigger] w2.projectiles[m] == w1.projectiles[m]
    &&& forall|m: int|
        w1.projectiles.len() <= m < w2.projectiles.len() ==> appended_shot_ok(
            w1,
            dt,
            #[trigger] w2.projectiles[m],
        )
    &&& w2.events == w1.events
    &&& w2.half_width == w1.half_width
    &&& w2.half_height == w1.half_height
}

/// What the motion step leaves: every agent and projectile advanced
/// by velocity times elapsed time.
pub open spec fn motion_rel(w1: World, w2: World, dt: int) -> bool {
    &&& w2.slots.len() == w1.slots.len()
    &&& forall|j: int|
        0 <= j < w1.slots.len() ==> {
            let s = w1.slots[j];
            let t = #[trigger] w2.slots[j];
            t.gen == s.gen && (if s.agent is Some {
                t.agent is Some && t.agent.unwrap() == agent_moved(s.agent.unwrap(), dt)
            } else {
                t.agent is None
            })
        }
    &&& w2.projectiles.len() == w1.projectiles.len()
    &&& forall|k: int|
        0 <= k < w1.projectiles.len() ==> #[trigger] w2.projectiles[k] == projectile_moved(
            w1.projectiles[k],
            dt,
        )
    &&& w2.events == w1.events
    &&& w2.half_width == w1.half_width
    &&& w2.half_height == w1.half_height
}

/// What the guidance step leaves: every projectile guided in place,
/// then the expired missiles dropped in order.
pub open spec fn homing_rel(w1: World, w2: World, dt: int) -> bool {
    &&& w2.slots == w1.slots
    &&& w2.events == w1.events
    &&& w2.half_width == w1.half_width
    &&& w2.half_height == w1.half_height
    &&& exists|mid: Seq<Projectile>|
        {
            &&& #[trigger] mid.len() == w1.projectiles.len()
            &&& forall|k: int|
                0 <= k < mid.len() ==> crate::homing::missile_updated_ok(
                    w1,
                    w1.projectiles[k],
                    dt,
                    #[trigger] mid[k],
                )
            &&& w2.projectiles@ == mid.filter(|p: Projectile| !crate::homing::expired(p))
        }
}

/// What collision resolution leaves: exactly the fold of
/// one-projectile resolutions in flight order.
pub open spec fn collision_rel(w1: World, w2: World) -> bool {
    &&& healths_decreased(w1, w2)
    &&& ({
        let f = resolve_fold(
            w1.slots@,
            w1.events@,
            Seq::<Projectile>::empty(),
            w1.projectiles@,
            w1.projectiles.len() as int,
            w1.half_width as int,
            w1.half_height as int,
        );
        w2.slots@ == f.0 && w2.events@ == f.1 && w2.projectiles@ == f.2
    })
    &&& forall|j: int|
        0 <= j < w1.slots.len() && !overlapped_by_any(w1, w1.projectiles@, j)
            ==> #[trigger] w2.slots[j] == w1.slots[j]
    &&& w2.half_width == w1.half_width
    &&& w2.half_height == w1.half_height
}

/// What the beam step leaves: exactly the fold of beam ticks and
/// corridor sweeps in slot order.
pub open spec fn beam_rel(w1: World, w2: World, dt: int) -> bool {
    &&& ({
        let f = crate::beam::beam_fold(w1.slots@, w1.events@, dt, w1.slots.len() as int);
        w2.slots@ == f.0 && w2.events@ == f.1
    })
    &&& w2.projectiles == w1.projectiles
    &&& w2.half_width == w1.half_width
    &&& w2.half_height == w1.half_height
}

/// What the healing step leaves: exactly the fold of heal pulses in
/// slot order.
pub open spec fn heal_rel(w1: World, w2: World, dt: int) -> bool {
    &&& ({
        let f = crate::healer::heal_fold(w1.slots@, w1.events@, dt, w1.slots.len() as int);
        w2.slots@ == f.0 && w2.events@ == f.1
    })
    &&& w2.projectiles == w1.projectiles
    &&& w2.half_width == w1.half_width
    &&& w2.half_height == w1.half_height
}

/// What draining the experience queue leaves: the queue empty and
/// the arena the chain of per-event credits in arrival order.
pub open spec fn drain_rel(w1: World, w2: World) -> bool {
    &&& w2.events.len() == 0
    &&& w2.slots.len() == w1.slots.len()
    &&& forall|j: int|
        0 <= j < w1.slots.len() ==> exp_progressed(w1.slots[j], #[trigger] w2.slots[j])
    &&& exists|tr: Seq<Seq<Slot>>|
        {
            &&& #[trigger] tr.len() == w1.events.len() + 1
            &&& tr[0] == w1.slots@
            &&& w2.slots@ == tr[w1.events.len() as int]
            &&& forall|k: int|
                0 <= k < w1.events.len() ==> credit_step_ok(
                    tr[k],
                    #[trigger] tr[k + 1],
                    w1.events[k],
                )
        }
    &&& w2.projectiles == w1.projectiles
    &&& w2.half_width == w1.half_width
    &&& w2.half_height == w1.half_height
}

/// What deferred destruction leaves: every emptied pool's slot freed
/// with a bumped generation, everything else untouched.
pub open spec fn commit_rel(w1: World, w2: World) -> bool {
    &&& w2.slots.len() == w1.slots.len()
    &&& forall|j: int|
        0 <= j < w1.slots.len() ==> #[trigger] w2.slots[j] == slot_after_commit(w1.slots[j])
    &&& w2.projectiles == w1.projectiles
    &&& w2.events == w1.events
    &&& w2.half_width == w1.half_width
    &&& w2.half_height == w1.half_height
}

/// Advance the world by one tick of `dt` milliseconds at the given
/// difficulty, returning the experience events the combat phases
/// queued (for score keeping) before the progression pipeline
/// consumed them.  The final world is the composition of the phase
/// relations, chained through the intermediate worlds in the fixed
/// order; spawning runs only while a round is running.
pub fn world_tick(w: &mut World, dt: i64, difficulty: u32, running: bool) -> (observed: Vec<
    ExpEvent,
>)
    requires
        old(w).wf(),
        0 < dt <= DT_MAX,
        difficulty <= 1_000,
        SPAWN_INSET <= old(w).half_width < 0x7fff_ffff,
        SPAWN_INSET <= old(w).half_height < 0x7fff_ffff,
        old(w).slots.len() + 600 < usize::MAX,
    ensures
        final(w).wf(),
        final(w).events.len() == 0,
        final(w).half_width == old(w).half_width,
        final(w).half_height == old(w).half_height,
        exists|ws: Seq<World>|
            {
                &&& #[trigger] ws.len() == 11
                &&& ws[0] == *old(w)
                &&& ws[10] == *final(w)
                &&& spawn_rel(ws[0], ws[1], difficulty as int, running)
                &&& aim_rel(ws[1], ws[2], dt as int)
                &&& fire_rel(ws[2], ws[3], dt as int)
                &&& motion_rel(ws[3], ws[4], dt as int)
                &&& homing_rel(ws[4], ws[5], dt as int)
                &&& collision_rel(ws[5], ws[6])
                &&& beam_rel(ws[6], ws[7], dt as int)
                &&& heal_rel(ws[7], ws[8], dt as int)
                &&& observed@ == ws[8].events@
                &&& drain_rel(ws[8], ws[9])
                &&& commit_rel(ws[9], ws[10])
            },
{
    if running {
        crate::spawner::spawn_wave(w, dt, difficulty);
    }
    let ghost g1 = *w;
    crate::aim::aim_phase(w, dt);
    let ghost g2 = *w;
    crate::weapon::fire_phase(w, dt);
    let ghost g3 = *w;
    crate::motion::motion_phase(w, dt);
    let ghost g4 = *w;
    crate::homing::homing_phase(w, dt);
    let ghost g5 = *w;
    crate::collision::collision_phase(w);
    let ghost g6 = *w;
    crate::beam::beam_phase(w, dt);
    let ghost g7 = *w;
    crate::healer::heal_phase(w, dt);
    let ghost g8 = *w;
    let mut observed: Vec<ExpEvent> = Vec::new();
    let mut ei: usize = 0;
    while ei < w.events.len()
        invariant
            ei <= w.events.len(),
            observed@ == w.events@.subrange(0, ei as int),
        decreases w.events.len() - ei,
    {
        observed.push(w.events[ei]);
        proof {
            assert(observed@ =~= w.events@.subrange(0, ei + 1));
        }
        ei = ei + 1;
    }
    proof {
        assert(observed@ =~= w.events@);
    }
    crate::events::drain_events(w);
    let ghost g9 = *w;
    w.commit_destroyed();
    proof {
        let ws = seq![*old(w), g1, g2, g3, g4, g5, g6, g7, g8, g9, *w];
        assert(ws.len() == 11);
        assert(spawn_rel(ws[0], ws[1], difficulty as int, running));
        assert(aim_rel(ws[1], ws[2], dt as int));
        assert(fire_rel(ws[2], ws[3], dt as int));
        assert(motion_rel(ws[3], ws[4], dt as int));
        assert(homing_rel(ws[4], ws[5], dt as int));
        assert(collision_rel(ws[5], ws[6]));
        assert(beam_rel(ws[6], ws[7], dt as int));
        assert(heal_rel(ws[7], ws[8], dt as int));
        assert(drain_rel(ws[8], ws[9]));
        assert(commit_rel(ws[9], ws[10]));
    }
    observed
}

} // verus!
