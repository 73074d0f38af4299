//! Motion integration: every agent and projectile advances by its
//! velocity times the elapsed time, clamped to the playfield model.

use crate::geom::{motion_spec, integrate_motion, DT_MAX};
use crate::world::{Agent, Projectile, World};
use vstd::pervasive::VecAdditionalExecFns;
use vstd::prelude::*;

verus! {

/// An agent after one motion step: only its position changes.
pub open spec fn agent_moved(a: Agent, dt: int) -> Agent {
    Agent { pos: motion_spec(a.pos, a.vel, dt), ..a }
}

/// A projectile after one motion step: only its position changes.
pub open spec fn projectile_moved(p: Projectile, dt: int) -> Projectile {
    Projectile { pos: motion_spec(p.pos, p.vel, dt), ..p }
}

/// Advance every agent and projectile by velocity times elapsed
/// time.  Nothing else about the world changes: slot generations,
/// health, targets, weapons, the event queue and the projectile
/// order are all preserved.
pub fn motion_phase(w: &mut World, dt: i64)
    requires
        old(w).wf(),
        0 <= dt <= DT_MAX,
    ensures
        final(w).wf(),
        final(w).slots.len() == old(w).slots.len(),
        forall|j: int|
            0 <= j < old(w).slots.len() ==> {
                let s = old(w).slots[j];
                let t = #[trigger] final(w).slots[j];
                t.gen == s.gen && (if s.agent is Some {
                    t.agent is Some && t.agent.unwrap() == agent_moved(s.agent.unwrap(), dt as int)
                } else {
                    t.agent is None
                })
            },
        final(w).projectiles.len() == old(w).projectiles.len(),
        forall|k: int|
            0 <= k < old(w).projectiles.len() ==> #[trigger] final(w).projectiles[k]
                == projectile_moved(old(w).projectiles[k], dt as int),
        final(w).events == old(w).events,
        final(w).half_width == old(w).half_width,
        final(w).half_height == old(w).half_height,
{
    let n = w.slots.len();
    let mut i: usize = 0;
    while i < n
        invariant
            old(w).wf(),
            0 <= dt <= DT_MAX,
            n == w.slots.len() == old(w).slots.len(),
            i <= n,
            w.projectiles == old(w).projectiles,
            w.events == old(w).events,
            w.half_width == old(w).half_width,
            w.half_height == old(w).half_height,
            forall|j: int| i <= j < n ==> w.slots[j] == old(w).slots[j],
            forall|j: int|
                0 <= j < i ==> {
                    let s = old(w).slots[j];
                    let t = #[trigger] w.slots[j];
                    t.gen == s.gen && (if s.agent is Some {
                        t.agent is Some && t.agent.unwrap() == agent_moved(
                            s.agent.unwrap(),
                            dt as int,
                        )
                    } else {
                        t.agent is None
                    })
                },
        decreases n - i,
    {
        let slot = w.slots[i];
        if let Some(a) = slot.agent {
            let moved = Agent { pos: integrate_motion(a.pos, a.vel, dt), ..a };
            w.slots.set(i, crate::world::Slot { gen: slot.gen, agent: Some(moved) });
        }
        i = i + 1;
    }
    let m = w.projectiles.len();
    let mut k: usize = 0;
    while k < m
        invariant
            old(w).wf(),
            0 <= dt <= DT_MAX,
            m == w.projectiles.len() == old(w).projectiles.len(),
            k <= m,
            w.slots.len() == old(w).slots.len(),
            forall|j: int|
                0 <= j < old(w).slots.len() ==> {
                    let s = old(w).slots[j];
                    let t = #[trigger] w.slots[j];
                    t.gen == s.gen && (if s.agent is Some {
                        t.agent is Some && t.agent.unwrap() == agent_moved(
                            s.agent.unwrap(),
                            dt as int,
                        )
                    } else {
                        t.agent is None
                    })
                },
            w.events == old(w).events,
            w.half_width == old(w).half_width,
            w.half_height == old(w).half_height,
            forall|l: int| k <= l < m ==> w.projectiles[l] == old(w).projectiles[l],
            forall|l: int|
                0 <= l < k ==> #[trigger] w.projectiles[l] == projectile_moved(
                    old(w).projectiles[l],
                    dt as int,
                ),
        decreases m - k,
    {
        let mut tmp = crate::world::Projectile {
            pos: crate::geom::Vec2I { x: 0, y: 0 },
            vel: crate::geom::Vec2I { x: 0, y: 0 },
            heading: 0,
            targets_hostile: false,
            owner: crate::world::AgentId { idx: 0, gen: 0 },
            damage: 1,
            homing: None,
        };
        w.projectiles.set_and_swap(k, &mut tmp);
        tmp.pos = integrate_motion(tmp.pos, tmp.vel, dt);
        w.projectiles.set_and_swap(k, &mut tmp);
        k = k + 1;
    }
}

} // verus!
