//! Homing guidance: time-to-live, retargeting, steering, and the
//! bounded trail of each missile.
//!
//! Each tick a missile's time-to-live shrinks by the elapsed time;
//! an expired missile is removed together with its trail.  A missile
//! whose target has died re-runs the nearest-candidate search over
//! its own target faction (keeping the stale handle if nothing is
//! found); while it has a living target it steers toward it at a
//! fixed turn rate and flies at the fixed missile speed.  The trail
//! records the current position whenever it has moved far enough
//! from the last record, evicting the oldest point beyond the
//! capacity.

use crate::aim::aim_step;
use crate::geom::{dist_sq, distance_sq, Vec2I, DT_MAX};
use crate::weapon::MISSILE_SPEED;
use crate::world::{
    projectile_wf, AgentId, Homing, Projectile, World, TRAIL_CAP,
};
use vstd::pervasive::VecAdditionalExecFns;
use vstd::prelude::*;

verus! {

/// Turn rate of a missile, in angle units per second.
pub const MISSILE_TURN_RATE: i64 = 500_000;

/// Squared distance the missile must travel before the trail
/// records another point.
pub const TRAIL_SPACING_SQ: u128 = 100_000_000;

/// What retargeting promises: a living target of the missile's
/// faction is kept; otherwise the result is a nearest candidate of
/// that faction, or the stale handle when no candidate exists.
pub open spec fn retarget_ok(
    w: World,
    from: Vec2I,
    cur: Option<AgentId>,
    want: bool,
    t2: Option<AgentId>,
) -> bool {
    if w.target_still_valid(cur, want) {
        t2 == cur
    } else {
        ||| (t2 == cur && forall|j: int| !w.combat_candidate(from, want, None, j))
        ||| {
            &&& t2 is Some
            &&& w.valid_id(t2.unwrap())
            &&& w.combat_candidate(from, want, None, t2.unwrap().idx as int)
            &&& forall|j: int|
                w.combat_candidate(from, want, None, j) ==> dist_sq(from, w.agent_at(j).pos)
                    >= dist_sq(from, w.agent_of(t2.unwrap()).pos)
        }
    }
}

/// The trail after one tick: push the current position when it has
/// moved beyond the spacing from the last record, then evict the
/// oldest record beyond the capacity.
pub open spec fn trail_ticked(base: Seq<Vec2I>, pos: Vec2I) -> Seq<Vec2I> {
    let t1 = if base.len() > 0 && dist_sq(base[base.len() - 1], pos) > TRAIL_SPACING_SQ {
        base.push(pos)
    } else {
        base
    };
    if t1.len() > TRAIL_CAP {
        t1.skip(1)
    } else {
        t1
    }
}

/// What one guidance step leaves of a projectile.  Plain bullets
/// pass through untouched; a missile loses `dt` of its time to live
/// and, unless expired, retargets, steers, and extends its trail.
pub open spec fn missile_updated_ok(w: World, p: Projectile, dt: int, np: Projectile) -> bool {
    match p.homing {
        None => np == p,
        Some(h) => {
            let ttl2 = if h.ttl - dt < -1 {
                -1
            } else {
                h.ttl - dt
            };
            &&& np == (Projectile { heading: np.heading, vel: np.vel, homing: np.homing, ..p })
            &&& np.homing is Some
            &&& np.homing.unwrap().ttl == ttl2
            &&& if ttl2 < 0 {
                np == (Projectile { homing: Some(Homing { ttl: ttl2 as i64, ..h }), ..p })
            } else {
                let t2 = np.homing.unwrap().target;
                &&& retarget_ok(w, p.pos, h.target, p.targets_hostile, t2)
                &&& if w.target_still_valid(t2, p.targets_hostile) {
                    let r = aim_step(
                        p.heading as int,
                        p.pos,
                        w.agent_of(t2.unwrap()).pos,
                        MISSILE_TURN_RATE * dt / 1000,
                    );
                    &&& np.heading == r.0
                    &&& crate::aim::velocity_along(np.vel, np.heading as int, MISSILE_SPEED as int)
                } else {
                    np.heading == p.heading && np.vel == p.vel
                }
                &&& np.homing.unwrap().trail@ == trail_ticked(h.trail@, p.pos)
            }
        },
    }
}

/// The guidance relation reads only the agent arena, so worlds with
/// the same slots agree on it.
proof fn lemma_missile_ok_slots(w1: World, w2: World, p: Projectile, dt: int, np: Projectile)
    requires
        w1.slots == w2.slots,
        missile_updated_ok(w1, p, dt, np),
    ensures
        missile_updated_ok(w2, p, dt, np),
{
    match p.homing {
        None => {},
        Some(h) => {
            let th = p.targets_hostile;
            let ttl2 = if h.ttl - dt < -1 {
                -1
            } else {
                h.ttl - dt
            };
            if ttl2 >= 0 {
                let t2 = np.homing.unwrap().target;
                assert(w2.target_still_valid(h.target, th) == w1.target_still_valid(
                    h.target,
                    th,
                ));
                assert(w2.target_still_valid(t2, th) == w1.target_still_valid(t2, th));
                if !w1.target_still_valid(h.target, th) {
                    if t2 == h.target && (forall|j: int|
                        !w1.combat_candidate(p.pos, th, None, j)) {
                        assert forall|j: int| !w2.combat_candidate(p.pos, th, None, j) by {
                            assert(!w1.combat_candidate(p.pos, th, None, j));
                        }
                    } else {
                        assert(w2.valid_id(t2.unwrap()) == w1.valid_id(t2.unwrap()));
                        assert forall|j: int|
                            w2.combat_candidate(p.pos, th, None, j) implies dist_sq(
                            p.pos,
                            w2.agent_at(j).pos,
                        ) >= dist_sq(p.pos, w2.agent_of(t2.unwrap()).pos) by {
                            assert(w1.combat_candidate(p.pos, th, None, j));
                        }
                    }
                }
                if w1.target_still_valid(t2, th) {
                    assert(w2.agent_of(t2.unwrap()) == w1.agent_of(t2.unwrap()));
                }
            }
        },
    }
}

/// Update one missile against the current world.
fn missile_update(w: &World, p: Projectile, dt: i64) -> (np: Projectile)
    requires
        w.wf(),
        projectile_wf(p),
        0 <= dt <= DT_MAX,
    ensures
        missile_updated_ok(*w, p, dt as int, np),
        projectile_wf(np),
{
    match p.homing {
        None => p,
        Some(mut h) => {
            let ttl2 = if h.ttl - dt < -1 {
                -1
            } else {
                h.ttl - dt
            };
            h.ttl = ttl2;
            if ttl2 < 0 {
                return Projectile { homing: Some(h), ..p };
            }
            // retarget when the latched target is gone or dead
            let keep = match h.target {
                Some(id) => match w.get_agent(id) {
                    Some(a) => a.health.val > 0 && a.hostile == p.targets_hostile,
                    None => false,
                },
                None => false,
            };
            if !keep {
                if let Some(nid) = w.nearest_candidate(p.pos, p.targets_hostile, None) {
                    h.target = Some(nid);
                }
            }
            // steer while the target lives
            let mut heading = p.heading;
            let mut vel = p.vel;
            let live = match h.target {
                Some(id) => match w.get_agent(id) {
                    Some(a) => a.health.val > 0 && a.hostile == p.targets_hostile,
                    None => false,
                },
                None => false,
            };
            if live {
                let tp = w.get_agent(h.target.unwrap()).unwrap().pos;
                let step = crate::aim::turn_step(MISSILE_TURN_RATE, dt);
                let (nh, _aligned) = crate::aim::aim_toward(p.heading, p.pos, tp, step);
                heading = nh;
                vel = crate::geom::velocity_from_heading(nh, MISSILE_SPEED);
            }
            // extend and bound the trail
            let push = if h.trail.len() > 0 {
                let last = h.trail[h.trail.len() - 1];
                distance_sq(last, p.pos) > TRAIL_SPACING_SQ
            } else {
                false
            };
            let ghost base = h.trail@;
            if push {
                h.trail.push(p.pos);
            }
            if h.trail.len() > TRAIL_CAP {
                let ghost t1 = h.trail@;
                h.trail.remove(0);
                proof {
                    assert(h.trail@ =~= t1.skip(1));
                }
            }
            Projectile { heading, vel, homing: Some(h), ..p }
        },
    }
}

/// The guidance phase: update every projectile in place, then drop
/// the expired missiles.  Agents, events and bounds are untouched;
/// every surviving projectile is the guided image of the incoming
/// projectile at its position in the list, with expired missiles
/// removed in order.
#[verifier::rlimit(100)]
pub fn homing_phase(w: &mut World, dt: i64)
    requires
        old(w).wf(),
        0 <= dt <= DT_MAX,
    ensures
        final(w).wf(),
        final(w).slots == old(w).slots,
        final(w).events == old(w).events,
        final(w).half_width == old(w).half_width,
        final(w).half_height == old(w).half_height,
        final(w).projectiles.len() <= old(w).projectiles.len(),
        exists|mid: Seq<Projectile>|
            {
                &&& #[trigger] mid.len() == old(w).projectiles.len()
                &&& forall|k: int|
                    0 <= k < mid.len() ==> missile_updated_ok(
                        *old(w),
                        old(w).projectiles[k],
                        dt as int,
                        #[trigger] mid[k],
                    )
                &&& final(w).projectiles@ == mid.filter(|p: Projectile| !expired(p))
            },
{
    let n = w.projectiles.len();
    let mut i: usize = 0;
    while i < n
        invariant
            old(w).wf(),
            w.wf(),
            0 <= dt <= DT_MAX,
            n == w.projectiles.len() == old(w).projectiles.len(),
            i <= n,
            w.slots == old(w).slots,
            w.events == old(w).events,
            w.half_width == old(w).half_width,
            w.half_height == old(w).half_height,
            forall|k: int| i <= k < n ==> w.projectiles[k] == old(w).projectiles[k],
            forall|k: int|
                0 <= k < i ==> missile_updated_ok(
                    *old(w),
                    old(w).projectiles[k],
                    dt as int,
                    #[trigger] w.projectiles[k],
                ),
        decreases n - i,
    {
        let mut tmp = Projectile {
            pos: Vec2I { x: 0, y: 0 },
            vel: Vec2I { x: 0, y: 0 },
            heading: 0,
            targets_hostile: false,
            owner: AgentId { idx: 0, gen: 0 },
            damage: 1,
            homing: None,
        };
        w.projectiles.set_and_swap(i, &mut tmp);
        let ghost porig = tmp;
        let ghost w_call = *w;
        let np = missile_update(w, tmp, dt);
        let mut back = np;
        w.projectiles.set_and_swap(i, &mut back);
        proof {
            assert(porig == old(w).projectiles[i as int]);
            lemma_missile_ok_slots(w_call, *old(w), porig, dt as int, np);
            assert(missile_updated_ok(*old(w), porig, dt as int, w.projectiles[i as int]));
        }
        i = i + 1;
    }
    // drop expired missiles, preserving order
    let ghost mid = w.projectiles@;
    let mut tmp: Vec<Projectile> = Vec::new();
    core::mem::swap(&mut tmp, &mut w.projectiles);
    let mut rev: Vec<Projectile> = Vec::new();
    while tmp.len() > 0
        invariant
            tmp.len() + rev.len() == n,
            mid.len() == n,
            forall|k: int| 0 <= k < tmp.len() ==> #[trigger] tmp[k] == mid[k],
            forall|k: int| 0 <= k < rev.len() ==> #[trigger] rev[k] == mid[n - 1 - k],
        decreases tmp.len(),
    {
        let p = tmp.pop().unwrap();
        rev.push(p);
    }
    let mut out: Vec<Projectile> = Vec::new();
    let mut idx: usize = 0;
    while rev.len() > 0
        invariant
            mid.len() == n,
            idx == n - rev.len(),
            idx <= n,
            forall|k: int| 0 <= k < rev.len() ==> #[trigger] rev[k] == mid[n - 1 - k],
            out@ == mid.subrange(0, idx as int).filter(|p: Projectile| !expired(p)),
        decreases rev.len(),
    {
        let p = rev.pop().unwrap();
        proof {
            assert(p == mid[idx as int]);
            let pre = mid.subrange(0, idx as int);
            let s2 = mid.subrange(0, idx + 1);
            assert(s2 =~= pre.push(p));
            assert(pre.push(p).drop_last() =~= pre);
            assert(pre.push(p).last() == p);
            reveal(Seq::filter);
            assert(pre.push(p).filter(|q: Projectile| !expired(q)) == if !expired(p) {
                pre.filter(|q: Projectile| !expired(q)).push(p)
            } else {
                pre.filter(|q: Projectile| !expired(q))
            });
        }
        let keep = match &p.homing {
            Some(h) => h.ttl >= 0,
            None => true,
        };
        proof {
            assert(keep == !expired(p));
        }
        if keep {
            out.push(p);
        }
        idx = idx + 1;
    }
    core::mem::swap(&mut out, &mut w.projectiles);
    proof {
        assert(mid.subrange(0, n as int) =~= mid);
        assert(w.projectiles@ == mid.filter(|p: Projectile| !expired(p)));
        assert forall|m: int|
            0 <= m < w.projectiles.len() implies projectile_wf(#[trigger] w.projectiles[m]) by {
            seq_filter_membership(mid, |p: Projectile| !expired(p), m);
        }
    }
}

/// A missile whose time to live has run out.
pub open spec fn expired(p: Projectile) -> bool {
    match p.homing {
        Some(h) => h.ttl < 0,
        None => false,
    }
}

/// Every element of a filtered sequence occurs in the sequence it
/// was filtered from.
proof fn seq_filter_membership<A>(s: Seq<A>, pred: spec_fn(A) -> bool, m: int)
    requires
        0 <= m < s.filter(pred).len(),
    ensures
        exists|k: int| 0 <= k < s.len() && #[trigger] s[k] == s.filter(pred)[m],
    decreases s.len(),
{
    reveal(Seq::filter);
    if s.len() > 0 {
        let last = s.last();
        let rest = s.drop_last();
        if pred(last) && m == s.filter(pred).len() - 1 {
            assert(s[s.len() - 1] == s.filter(pred)[m]);
        } else {
            seq_filter_membership(rest, pred, m);
            let k = choose|k: int|
                0 <= k < rest.len() && #[trigger] rest[k] == rest.filter(pred)[m];
            assert(s[k] == s.filter(pred)[m]);
        }
    }
}

} // verus!
