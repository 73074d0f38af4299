//! Projectile collision resolution and expiry.
//!
//! Projectiles are tested in flight order against every living agent
//! of the faction they damage.  On the first overlap the projectile
//! is removed from the list at once — a removed projectile cannot
//! collide again on this or any later tick — and its damage is
//! applied to the struck agent, saturating at zero.  A blow that
//! empties the pool queues a kill experience event for the
//! projectile's owner.  Projectiles that leave the playfield expire
//! silently.  Health never increases in this phase.

use crate::geom::{boxes_overlap, collide_aabb, iabs, in_coord_range, Vec2I};
use crate::health::Health;
use crate::world::{Agent, ExpEvent, Projectile, Slot, World};
use vstd::pervasive::VecAdditionalExecFns;
use vstd::prelude::*;

verus! {

/// Full width of a projectile's collision box, in position units.
pub const BULLET_BOX: i64 = 20_000;

/// Slot `j` of the arena sequence holds a living agent of faction
/// `th` whose box overlaps a projectile at `pos`.
pub open spec fn slot_hit(slots: Seq<Slot>, pos: Vec2I, th: bool, j: int) -> bool {
    &&& 0 <= j < slots.len()
    &&& slots[j].agent is Some
    &&& slots[j].agent.unwrap().health.val > 0
    &&& slots[j].agent.unwrap().hostile == th
    &&& boxes_overlap(
        pos,
        BULLET_BOX as int,
        slots[j].agent.unwrap().pos,
        slots[j].agent.unwrap().radius as int,
    )
}

/// Slot `j` holds a living agent of faction `th` whose box overlaps
/// a projectile at `pos`.
pub open spec fn hit_candidate(w: World, pos: Vec2I, th: bool, j: int) -> bool {
    slot_hit(w.slots@, pos, th, j)
}

/// The first slot at or after `j` that a projectile at `pos` strikes.
pub open spec fn first_hit_from(slots: Seq<Slot>, pos: Vec2I, th: bool, j: int) -> Option<int>
    decreases slots.len() - j,
{
    if j < 0 || j >= slots.len() {
        None
    } else if slot_hit(slots, pos, th, j) {
        Some(j)
    } else {
        first_hit_from(slots, pos, th, j + 1)
    }
}

/// `first_hit_from` returns exactly the least struck slot at or
/// after `j`, or absence of any.
proof fn lemma_first_hit_from_char(slots: Seq<Slot>, pos: Vec2I, th: bool, j: int)
    requires
        0 <= j,
    ensures
        match first_hit_from(slots, pos, th, j) {
            Some(i) => {
                &&& j <= i < slots.len()
                &&& slot_hit(slots, pos, th, i)
                &&& forall|l: int| j <= l < i ==> !slot_hit(slots, pos, th, l)
            },
            None => forall|l: int| j <= l ==> !slot_hit(slots, pos, th, l),
        },
    decreases slots.len() - j,
{
    if j < slots.len() && !slot_hit(slots, pos, th, j) {
        lemma_first_hit_from_char(slots, pos, th, j + 1);
    }
}

/// What resolving the first `k` projectiles (in flight order) leaves
/// of the arena, the event queue, and the surviving projectile list:
/// each projectile in turn strikes the first living opposing agent
/// its box overlaps, draining exactly its damage (saturating at
/// zero) and queueing one kill event for its owner if the pool
/// empties; a projectile that strikes nobody survives exactly when
/// it is inside the playfield.
pub open spec fn resolve_fold(
    slots: Seq<Slot>,
    events: Seq<ExpEvent>,
    kept: Seq<Projectile>,
    projs: Seq<Projectile>,
    k: int,
    half_w: int,
    half_h: int,
) -> (Seq<Slot>, Seq<ExpEvent>, Seq<Projectile>)
    decreases k,
{
    if k <= 0 {
        (slots, events, kept)
    } else {
        let r = resolve_fold(slots, events, kept, projs, k - 1, half_w, half_h);
        let p = projs[k - 1];
        match first_hit_from(r.0, p.pos, p.targets_hostile, 0) {
            Some(j) => {
                let a = r.0[j].agent.unwrap();
                let nv = if p.damage >= a.health.val {
                    0u64
                } else {
                    (a.health.val - p.damage) as u64
                };
                let s2 = r.0.update(
                    j,
                    Slot {
                        gen: r.0[j].gen,
                        agent: Some(
                            Agent { health: (Health { val: nv, max: a.health.max }), ..a },
                        ),
                    },
                );
                let e2 = if p.damage >= a.health.val {
                    r.1.push(ExpEvent { target: p.owner, amount: a.exp_value, killed: true })
                } else {
                    r.1
                };
                (s2, e2, r.2)
            },
            None => {
                if iabs(p.pos.x as int) <= half_w && iabs(p.pos.y as int) <= half_h {
                    (r.0, r.1, r.2.push(p))
                } else {
                    (r.0, r.1, r.2)
                }
            },
        }
    }
}

/// The projectile overlaps no living agent of its target faction.
pub open spec fn proj_clear(w: World, p: Projectile) -> bool {
    forall|j: int| !hit_candidate(w, p.pos, p.targets_hostile, j)
}

/// Some projectile of the list overlaps the living agent in slot `j`.
pub open spec fn overlapped_by_any(w0: World, projs: Seq<Projectile>, j: int) -> bool {
    exists|k: int|
        0 <= k < projs.len() && #[trigger] hit_candidate(
            w0,
            projs[k].pos,
            projs[k].targets_hostile,
            j,
        )
}

/// Draining health cannot create an overlap candidate.
proof fn lemma_hit_back(w1: World, w2: World, pos: Vec2I, th: bool, j: int)
    requires
        healths_decreased(w1, w2),
        hit_candidate(w2, pos, th, j),
    ensures
        hit_candidate(w1, pos, th, j),
{
    assert(w2.slots[j].agent is Some);
}

/// `p` occurs in the sequence `s`.
pub open spec fn one_of(p: Projectile, s: Seq<Projectile>) -> bool {
    exists|k: int| 0 <= k < s.len() && #[trigger] s[k] == p
}

proof fn lemma_one_of(p: Projectile, s: Seq<Projectile>, k: int)
    requires
        0 <= k < s.len(),
        s[k] == p,
    ensures
        one_of(p, s),
{
}

proof fn lemma_one_of_grow(p: Projectile, s1: Seq<Projectile>, s2: Seq<Projectile>)
    requires
        one_of(p, s1),
        s1.len() <= s2.len(),
        forall|i: int| 0 <= i < s1.len() ==> s1[i] == s2[i],
    ensures
        one_of(p, s2),
{
    let k = choose|k: int| 0 <= k < s1.len() && #[trigger] s1[k] == p;
    assert(s2[k] == p);
}

/// The projectile lies inside the playfield.
pub open spec fn in_play(w: World, p: Projectile) -> bool {
    iabs(p.pos.x as int) <= w.half_width && iabs(p.pos.y as int) <= w.half_height
}

/// `w2` is `w1` with some health pools drained: same slots, same
/// agents except for current health values that never increase.
pub open spec fn healths_decreased(w1: World, w2: World) -> bool {
    &&& w2.slots.len() == w1.slots.len()
    &&& forall|j: int|
        0 <= j < w1.slots.len() ==> (#[trigger] w2.slots[j]).gen == w1.slots[j].gen && (if w1
            .slots[j].agent is Some {
            &&& w2.slots[j].agent is Some
            &&& w2.slots[j].agent.unwrap() == (Agent {
                health: w2.slots[j].agent.unwrap().health,
                ..w1.slots[j].agent.unwrap()
            })
            &&& w2.slots[j].agent.unwrap().health.max == w1.slots[j].agent.unwrap().health.max
            &&& w2.slots[j].agent.unwrap().health.val <= w1.slots[j].agent.unwrap().health.val
        } else {
            w2.slots[j].agent is None
        })
}

/// Draining health never creates hit candidates, so a clear
/// projectile stays clear.
proof fn lemma_clear_preserved(w1: World, w2: World, p: Projectile)
    requires
        healths_decreased(w1, w2),
        proj_clear(w1, p),
    ensures
        proj_clear(w2, p),
{
    assert forall|j: int| !hit_candidate(w2, p.pos, p.targets_hostile, j) by {
        if 0 <= j < w1.slots.len() {
            assert(!hit_candidate(w1, p.pos, p.targets_hostile, j));
        }
    }
}

/// Worlds with the same slots agree on which projectiles are clear.
proof fn lemma_clear_same_slots(w1: World, w2: World, p: Projectile)
    requires
        w1.slots == w2.slots,
        proj_clear(w1, p),
    ensures
        proj_clear(w2, p),
{
    assert forall|j: int| !hit_candidate(w2, p.pos, p.targets_hostile, j) by {
        assert(!hit_candidate(w1, p.pos, p.targets_hostile, j));
    }
}

/// Law: damage only accumulates.  Chaining any number of
/// resolution passes (collision or beam), each of which only drains
/// health, still only drains health: an agent's pool never rises
/// except through an explicit heal, and never below zero (the pools
/// are unsigned and each drain saturates at zero).
pub proof fn lemma_decrease_trans(w1: World, w2: World, w3: World)
    requires
        healths_decreased(w1, w2),
        healths_decreased(w2, w3),
    ensures
        healths_decreased(w1, w3),
{
}

/// The first living opposing agent (in slot order) whose box the
/// projectile overlaps.
fn first_hit(w: &World, pos: Vec2I, th: bool) -> (r: Option<usize>)
    requires
        w.wf(),
        in_coord_range(pos),
    ensures
        match r {
            Some(j) => {
                &&& hit_candidate(*w, pos, th, j as int)
                &&& forall|l: int| 0 <= l < j ==> !hit_candidate(*w, pos, th, l)
            },
            None => forall|l: int| !hit_candidate(*w, pos, th, l),
        },
{
    let n = w.slots.len();
    let mut i: usize = 0;
    while i < n
        invariant
            w.wf(),
            in_coord_range(pos),
            n == w.slots.len(),
            i <= n,
            forall|l: int| 0 <= l < i ==> !hit_candidate(*w, pos, th, l),
        decreases n - i,
    {
        if let Some(a) = w.slots[i].agent {
            if a.health.val > 0 && a.hostile == th {
                if collide_aabb(pos, BULLET_BOX, a.pos, a.radius) {
                    return Some(i);
                }
            }
        }
        i = i + 1;
    }
    None
}

/// Resolve collisions and expire out-of-bounds projectiles.
///
/// Agents change only by losing health (never below zero, maxima
/// untouched); each surviving projectile is one of the incoming
/// projectiles, lies inside the playfield, and overlaps no living
/// opposing agent; a projectile that overlapped nobody at entry and
/// was in bounds survives; every queued event is a kill event.
#[verifier::rlimit(100)]
pub fn collision_phase(w: &mut World)
    requires
        old(w).wf(),
    ensures
        final(w).wf(),
        healths_decreased(*old(w), *final(w)),
        forall|m: int|
            0 <= m < final(w).projectiles.len() ==> one_of(
                #[trigger] final(w).projectiles[m],
                old(w).projectiles@,
            ),
        forall|m: int|
            0 <= m < final(w).projectiles.len() ==> in_play(*final(w), #[trigger] final(w).projectiles[m])
                && proj_clear(*final(w), final(w).projectiles[m]),
        forall|k: int|
            0 <= k < old(w).projectiles.len() && proj_clear(*old(w), old(w).projectiles[k])
                && in_play(*old(w), #[trigger] old(w).projectiles[k]) ==> one_of(
                old(w).projectiles[k],
                final(w).projectiles@,
            ),
        old(w).events.len() <= final(w).events.len(),
        forall|e: int|
            0 <= e < old(w).events.len() ==> #[trigger] final(w).events[e] == old(w).events[e],
        forall|e: int|
            old(w).events.len() <= e < final(w).events.len()
                ==> (#[trigger] final(w).events[e]).killed == true,
        ({
            let f = resolve_fold(
                old(w).slots@,
                old(w).events@,
                Seq::<Projectile>::empty(),
                old(w).projectiles@,
                old(w).projectiles.len() as int,
                old(w).half_width as int,
                old(w).half_height as int,
            );
            final(w).slots@ == f.0 && final(w).events@ == f.1 && final(w).projectiles@ == f.2
        }),
        forall|j: int|
            0 <= j < old(w).slots.len() && !overlapped_by_any(*old(w), old(w).projectiles@, j)
                ==> #[trigger] final(w).slots[j] == old(w).slots[j],
        final(w).half_width == old(w).half_width,
        final(w).half_height == old(w).half_height,
{
    let n = w.projectiles.len();
    let mut tmp: Vec<Projectile> = Vec::new();
    core::mem::swap(&mut tmp, &mut w.projectiles);
    let ghost p0 = tmp@;
    // reverse so that popping yields flight order
    let mut rev: Vec<Projectile> = Vec::new();
    while tmp.len() > 0
        invariant
            tmp.len() + rev.len() == n,
            p0.len() == n,
            forall|i: int| 0 <= i < tmp.len() ==> #[trigger] tmp[i] == p0[i],
            forall|i: int| 0 <= i < rev.len() ==> #[trigger] rev[i] == p0[n - 1 - i],
        decreases tmp.len(),
    {
        let p = tmp.pop().unwrap();
        rev.push(p);
    }
    let mut out: Vec<Projectile> = Vec::new();
    let mut idx: usize = 0;
    while rev.len() > 0
        invariant
            old(w).wf(),
            w.wf(),
            p0.len() == n,
            idx == n - rev.len(),
            idx <= n,
            w.projectiles.len() == 0,
            forall|i: int| 0 <= i < rev.len() ==> #[trigger] rev[i] == p0[n - 1 - i],
            forall|i: int| 0 <= i < n ==> crate::world::projectile_wf(#[trigger] p0[i]),
            healths_decreased(*old(w), *w),
            forall|m: int| 0 <= m < out.len() ==> one_of(#[trigger] out[m], p0),
            forall|m: int|
                0 <= m < out.len() ==> in_play(*w, #[trigger] out[m]) && proj_clear(*w, out[m])
                    && crate::world::projectile_wf(out[m]),
            forall|k: int|
                0 <= k < idx && proj_clear(*old(w), p0[k]) && in_play(*old(w), #[trigger] p0[k])
                    ==> one_of(p0[k], out@),
            old(w).events.len() <= w.events.len(),
            forall|e: int|
                0 <= e < old(w).events.len() ==> #[trigger] w.events[e] == old(w).events[e],
            forall|e: int|
                old(w).events.len() <= e < w.events.len() ==> (#[trigger] w.events[e]).killed
                    == true,
            ({
                let f = resolve_fold(
                    old(w).slots@,
                    old(w).events@,
                    Seq::<Projectile>::empty(),
                    p0,
                    idx as int,
                    old(w).half_width as int,
                    old(w).half_height as int,
                );
                w.slots@ == f.0 && w.events@ == f.1 && out@ == f.2
            }),
            forall|j: int|
                0 <= j < old(w).slots.len() && !overlapped_by_any(*old(w), p0, j)
                    ==> #[trigger] w.slots[j] == old(w).slots[j],
            w.half_width == old(w).half_width,
            w.half_height == old(w).half_height,
        decreases rev.len(),
    {
        let p = rev.pop().unwrap();
        proof {
            assert(p == p0[idx as int]);
            assert(crate::world::projectile_wf(p));
        }
        let hit = first_hit(w, p.pos, p.targets_hostile);
        match hit {
            Some(j) => {
                let ghost w_before = *w;
                let slot = w.slots[j];
                let mut a = slot.agent.unwrap();
                let killed = a.health.apply_damage(p.damage);
                let exp_value = a.exp_value;
                w.slots.set(j, Slot { gen: slot.gen, agent: Some(a) });
                if killed {
                    w.events.push(
                        ExpEvent { target: p.owner, amount: exp_value, killed: true },
                    );
                }
                proof {
                    assert(healths_decreased(w_before, *w));
                    lemma_decrease_trans(*old(w), w_before, *w);
                    assert forall|m: int|
                        0 <= m < out.len() implies in_play(*w, #[trigger] out[m]) && proj_clear(
                        *w,
                        out[m],
                    ) && crate::world::projectile_wf(out[m]) by {
                        lemma_clear_preserved(w_before, *w, out[m]);
                    }
                    if proj_clear(*old(w), p) {
                        lemma_clear_preserved(*old(w), w_before, p);
                        assert(hit_candidate(w_before, p.pos, p.targets_hostile, j as int));
                        assert(false);
                    }
                    // the exec search found the spec fold's strike index
                    lemma_first_hit_from_char(w_before.slots@, p.pos, p.targets_hostile, 0);
                    let fh = first_hit_from(w_before.slots@, p.pos, p.targets_hostile, 0);
                    if fh is None {
                        assert(!slot_hit(w_before.slots@, p.pos, p.targets_hostile, j as int));
                        assert(false);
                    } else {
                        let i = fh.unwrap();
                        if i < j {
                            assert(!hit_candidate(w_before, p.pos, p.targets_hostile, i));
                            assert(false);
                        } else if j < i {
                            assert(!slot_hit(
                                w_before.slots@,
                                p.pos,
                                p.targets_hostile,
                                j as int,
                            ));
                            assert(false);
                        }
                    }
                    assert(fh == Some(j as int));
                    let f1 = resolve_fold(
                        old(w).slots@,
                        old(w).events@,
                        Seq::<Projectile>::empty(),
                        p0,
                        idx as int,
                        old(w).half_width as int,
                        old(w).half_height as int,
                    );
                    let f2 = resolve_fold(
                        old(w).slots@,
                        old(w).events@,
                        Seq::<Projectile>::empty(),
                        p0,
                        idx + 1,
                        old(w).half_width as int,
                        old(w).half_height as int,
                    );
                    assert(w_before.slots@ == f1.0 && w_before.events@ == f1.1 && out@ == f1.2);
                    assert(slot_hit(w_before.slots@, p.pos, p.targets_hostile, j as int));
                    assert(w.slots@ == f2.0 && w.events@ == f2.1 && out@ == f2.2);
                    // the struck slot was overlapped already in the pre-state
                    lemma_hit_back(*old(w), w_before, p.pos, p.targets_hostile, j as int);
                    assert(hit_candidate(
                        *old(w),
                        p0[idx as int].pos,
                        p0[idx as int].targets_hostile,
                        j as int,
                    ));
                    assert(overlapped_by_any(*old(w), p0, j as int));
                    assert forall|m: int|
                        0 <= m < old(w).slots.len() && !overlapped_by_any(*old(w), p0, m)
                            implies #[trigger] w.slots[m] == old(w).slots[m] by {
                        if m != j {
                            assert(w.slots[m] == w_before.slots[m]);
                        }
                    }
                }
            },
            None => {
                proof {
                    lemma_first_hit_from_char(w.slots@, p.pos, p.targets_hostile, 0);
                    let fh = first_hit_from(w.slots@, p.pos, p.targets_hostile, 0);
                    if fh is Some {
                        let i = fh.unwrap();
                        assert(!hit_candidate(*w, p.pos, p.targets_hostile, i));
                        assert(false);
                    }
                    assert(fh is None);
                }
                let inside = {
                    let ax = if p.pos.x < 0 {
                        -p.pos.x
                    } else {
                        p.pos.x
                    };
                    let ay = if p.pos.y < 0 {
                        -p.pos.y
                    } else {
                        p.pos.y
                    };
                    ax <= w.half_width && ay <= w.half_height
                };
                if inside {
                    let ghost pre_out = out@;
                    out.push(p);
                    proof {
                        assert(out[out.len() - 1] == p0[idx as int]);
                        lemma_one_of(p, out@, out.len() - 1);
                        assert forall|m: int| 0 <= m < out.len() implies one_of(
                            #[trigger] out[m],
                            p0,
                        ) by {
                            if m < out.len() - 1 {
                                assert(out[m] == pre_out[m]);
                            } else {
                                lemma_one_of(p, p0, idx as int);
                            }
                        }
                        assert forall|k: int|
                            0 <= k < idx + 1 && proj_clear(*old(w), p0[k]) && in_play(
                            *old(w),
                            #[trigger] p0[k],
                        ) implies one_of(p0[k], out@) by {
                            if k < idx {
                                lemma_one_of_grow(p0[k], pre_out, out@);
                            } else {
                                lemma_one_of(p0[k], out@, out.len() - 1);
                            }
                        }
                    }
                } else {
                    proof {
                        assert(!in_play(*w, p));
                        assert(!in_play(*old(w), p0[idx as int]));
                    }
                }
            },
        }
        idx = idx + 1;
    }
    let ghost w_exit = *w;
    let ghost out_snap = out@;
    core::mem::swap(&mut out, &mut w.projectiles);
    proof {
        assert(w.projectiles@ == out_snap);
        assert forall|m: int|
            0 <= m < w.projectiles.len() implies in_play(*w, #[trigger] w.projectiles[m])
            && proj_clear(*w, w.projectiles[m]) by {
            assert(w.projectiles[m] == out_snap[m]);
            assert(in_play(w_exit, out_snap[m]) && proj_clear(w_exit, out_snap[m]));
            lemma_clear_same_slots(w_exit, *w, w.projectiles[m]);
            assert(w.half_width == w_exit.half_width && w.half_height == w_exit.half_height);
        }
    }
}

} // verus!
