//! The wave spawner: Poisson-distributed arrivals of hostile
//! archetypes along the playfield edge, capped by a hard population
//! ceiling.
//!
//! Spawn counts are drawn with Knuth's product sampler: uniform
//! draws are multiplied together until the running product falls to
//! `e^(-lambda)`; the count is the number of draws minus one.  The
//! rate grows with the tick length and the archetype's frequency at
//! the current difficulty.  The hostile population never exceeds
//! `MAX_ENEMIES` through spawning.

use crate::geom::{in_coord_range, Vec2I, COORD_LIM, DT_MAX};
use crate::rng::random_u32;
use crate::world::{agent_wf, Agent, Archetype, Slot, World};
use vstd::prelude::*;

verus! {

/// Hard ceiling on the hostile population.
pub const MAX_ENEMIES: usize = 100;

/// Fixed-point one in the Q32 scale used by the Poisson sampler.
pub const Q32_ONE: u64 = 0x1_0000_0000;

/// How far inside the playfield edge new enemies appear, in
/// position units.
pub const SPAWN_INSET: i64 = 10_000;

/// The number of hostile agents among the first `i` slots.
pub open spec fn hostiles_upto(s: Seq<Slot>, i: int) -> int
    decreases i,
{
    if i <= 0 {
        0
    } else {
        hostiles_upto(s, i - 1) + (if s[i - 1].agent is Some && s[i - 1].agent.unwrap().hostile {
            1int
        } else {
            0int
        })
    }
}

proof fn lemma_hostiles_nonneg(s: Seq<Slot>, i: int)
    ensures
        hostiles_upto(s, i) >= 0,
    decreases i,
{
    if i > 0 {
        lemma_hostiles_nonneg(s, i - 1);
    }
}

/// Counting is pointwise: sequences that agree below `i` count the
/// same.
proof fn lemma_hostiles_agree(s1: Seq<Slot>, s2: Seq<Slot>, i: int)
    requires
        forall|j: int| 0 <= j < i ==> s1[j] == s2[j],
    ensures
        hostiles_upto(s1, i) == hostiles_upto(s2, i),
    decreases i,
{
    if i > 0 {
        lemma_hostiles_agree(s1, s2, i - 1);
    }
}

/// Filling one empty slot with a hostile agent raises the count by
/// exactly one.
proof fn lemma_hostiles_fill(s1: Seq<Slot>, s2: Seq<Slot>, jf: int, i: int)
    requires
        0 <= jf < s1.len(),
        i <= s1.len(),
        forall|j: int| 0 <= j < i && j != jf ==> s1[j] == s2[j],
        s1[jf].agent is None,
        jf < i ==> s2[jf].agent is Some && s2[jf].agent.unwrap().hostile,
    ensures
        hostiles_upto(s2, i) == hostiles_upto(s1, i) + (if jf < i {
            1int
        } else {
            0int
        }),
    decreases i,
{
    if i > 0 {
        lemma_hostiles_fill(s1, s2, jf, i - 1);
    }
}

/// The hostile population count.
pub fn count_hostiles(w: &World) -> (r: usize)
    ensures
        r == hostiles_upto(w.slots@, w.slots.len() as int),
{
    let n = w.slots.len();
    let mut i: usize = 0;
    let mut c: usize = 0;
    while i < n
        invariant
            n == w.slots.len(),
            i <= n,
            c == hostiles_upto(w.slots@, i as int),
            c <= i,
        decreases n - i,
    {
        if let Some(a) = w.slots[i].agent {
            if a.hostile {
                c = c + 1;
            }
        }
        i = i + 1;
    }
    c
}

/// The running Q32 product of the first `i` uniform draws, each
/// read as a fraction of one.
pub open spec fn knuth_product(draws: Seq<u32>, i: int) -> int
    decreases i,
{
    if i <= 0 {
        Q32_ONE as int
    } else {
        knuth_product(draws, i - 1) * draws[i - 1] / (Q32_ONE as int)
    }
}

/// Knuth's Poisson sampler over explicit draws: multiply uniform
/// fractions until the product falls to `threshold` (which stands
/// for `e^(-lambda)`); the count is the number of draws consumed
/// minus one, capped at `cap`.
pub fn poisson_count(threshold: u64, cap: usize, draws: &Vec<u32>) -> (r: usize)
    requires
        draws.len() >= cap + 1,
    ensures
        r <= cap,
        forall|i: int| 0 <= i < r ==> #[trigger] knuth_product(draws@, i + 1) > threshold,
        r < cap ==> knuth_product(draws@, r + 1) <= threshold,
{
    let mut p: u64 = Q32_ONE;
    let mut k: usize = 0;
    while k < cap
        invariant
            cap + 1 <= draws.len(),
            k <= cap,
            p == knuth_product(draws@, k as int),
            0 <= p <= Q32_ONE,
            forall|i: int| 0 <= i < k ==> #[trigger] knuth_product(draws@, i + 1) > threshold,
        decreases cap - k,
    {
        proof {
            assert((p as int) * (draws@[k as int] as int) <= (Q32_ONE as int) * (Q32_ONE as int))
                by (nonlinear_arith)
                requires
                    0 <= p <= Q32_ONE,
                    0 <= draws@[k as int] < Q32_ONE,
            ;
            vstd::arithmetic::div_mod::lemma_div_is_ordered(
                (p as int) * (draws@[k as int] as int),
                (Q32_ONE as int) * (Q32_ONE as int),
                Q32_ONE as int,
            );
            vstd::arithmetic::div_mod::lemma_div_by_multiple(Q32_ONE as int, Q32_ONE as int);
            assert((p as int) * (draws@[k as int] as int) >= 0) by (nonlinear_arith)
                requires
                    0 <= p,
                    0 <= draws@[k as int],
            ;
            vstd::arithmetic::div_mod::lemma_div_pos_is_pos(
                (p as int) * (draws@[k as int] as int),
                Q32_ONE as int,
            );
        }
        let np: u64 = (((p as u128) * (draws[k] as u128)) / (Q32_ONE as u128)) as u64;
        p = np;
        if p <= threshold {
            return k;
        }
        k = k + 1;
    }
    cap
}

/// The five hostile archetypes, in unlock order.
pub fn enemy_archetype(idx: usize) -> (r: Archetype)
    requires
        idx < 5,
    ensures
        r == spec_enemy_archetype(idx as int),
{
    match idx {
        0 => Archetype::BasicEnemy,
        1 => Archetype::BossEnemy,
        2 => Archetype::AgileEnemy,
        3 => Archetype::SturdyEnemy,
        _ => Archetype::MissileEnemy,
    }
}

pub open spec fn spec_enemy_archetype(idx: int) -> Archetype {
    if idx == 0 {
        Archetype::BasicEnemy
    } else if idx == 1 {
        Archetype::BossEnemy
    } else if idx == 2 {
        Archetype::AgileEnemy
    } else if idx == 3 {
        Archetype::SturdyEnemy
    } else {
        Archetype::MissileEnemy
    }
}

/// Starting health of a hostile archetype, in milli-hit-points.
pub open spec fn enemy_health_of(arch: Archetype) -> int {
    match arch {
        Archetype::BasicEnemy => 10_000,
        Archetype::BossEnemy => 150_000,
        Archetype::AgileEnemy => 50_000,
        Archetype::SturdyEnemy => 500_000,
        Archetype::MissileEnemy => 3_500_000,
        _ => 10_000,
    }
}

/// Collision box width of a hostile archetype, in position units.
pub open spec fn enemy_radius_of(arch: Archetype) -> int {
    match arch {
        Archetype::BasicEnemy => 20_000,
        Archetype::BossEnemy => 40_000,
        Archetype::AgileEnemy => 24_000,
        Archetype::SturdyEnemy => 30_000,
        Archetype::MissileEnemy => 30_000,
        _ => 20_000,
    }
}

/// Experience a hostile archetype awards on death.
pub open spec fn enemy_exp_of(arch: Archetype) -> int {
    match arch {
        Archetype::BasicEnemy => 10,
        Archetype::BossEnemy => 150,
        Archetype::AgileEnemy => 50,
        Archetype::SturdyEnemy => 500,
        Archetype::MissileEnemy => 3_500,
        _ => 10,
    }
}

/// Weapon damage of a hostile archetype, in milli-hit-points.
pub open spec fn enemy_damage_of(arch: Archetype) -> int {
    if arch is MissileEnemy {
        3_000
    } else {
        1_000
    }
}

/// A freshly spawned hostile agent of the archetype at `pos`.
pub open spec fn enemy_spec(arch: Archetype, pos: Vec2I) -> Agent {
    Agent {
        archetype: arch,
        pos,
        heading: 0,
        vel: (Vec2I { x: 0, y: 0 }),
        health: (crate::health::Health {
            val: enemy_health_of(arch) as u64,
            max: enemy_health_of(arch) as u64,
        }),
        hostile: true,
        radius: enemy_radius_of(arch) as i64,
        exp_value: enemy_exp_of(arch) as u64,
        target: None,
        shooter: Some(
            crate::world::Shooter {
                enabled: true,
                cooldown: 0,
                damage: enemy_damage_of(arch) as u64,
            },
        ),
        progression: None,
        healer: None,
        beam: None,
        kills: 0,
        retreating: true,
    }
}

/// Build a hostile agent of the archetype at `pos`.
pub fn make_enemy(arch: Archetype, pos: Vec2I) -> (r: Agent)
    requires
        in_coord_range(pos),
    ensures
        r == enemy_spec(arch, pos),
        agent_wf(r),
        r.hostile,
{
    let health: u64 = match arch {
        Archetype::BasicEnemy => 10_000,
        Archetype::BossEnemy => 150_000,
        Archetype::AgileEnemy => 50_000,
        Archetype::SturdyEnemy => 500_000,
        Archetype::MissileEnemy => 3_500_000,
        _ => 10_000,
    };
    let radius: i64 = match arch {
        Archetype::BasicEnemy => 20_000,
        Archetype::BossEnemy => 40_000,
        Archetype::AgileEnemy => 24_000,
        Archetype::SturdyEnemy => 30_000,
        Archetype::MissileEnemy => 30_000,
        _ => 20_000,
    };
    let exp_value: u64 = match arch {
        Archetype::BasicEnemy => 10,
        Archetype::BossEnemy => 150,
        Archetype::AgileEnemy => 50,
        Archetype::SturdyEnemy => 500,
        Archetype::MissileEnemy => 3_500,
        _ => 10,
    };
    let damage: u64 = match arch {
        Archetype::MissileEnemy => 3_000,
        _ => 1_000,
    };
    Agent {
        archetype: arch,
        pos,
        heading: 0,
        vel: Vec2I { x: 0, y: 0 },
        health: crate::health::Health { val: health, max: health },
        hostile: true,
        radius,
        exp_value,
        target: None,
        shooter: Some(crate::world::Shooter { enabled: true, cooldown: 0, damage }),
        progression: None,
        healer: None,
        beam: None,
        kills: 0,
        retreating: true,
    }
}

/// The point sits `SPAWN_INSET` inside one of the four playfield
/// edges.
pub open spec fn on_spawn_edge(half_w: int, half_h: int, p: Vec2I) -> bool {
    ||| (crate::geom::iabs(p.y as int) <= half_h && (p.x == -half_w + SPAWN_INSET || p.x == half_w
        - SPAWN_INSET))
    ||| (crate::geom::iabs(p.x as int) <= half_w && (p.y == -half_h + SPAWN_INSET || p.y == half_h
        - SPAWN_INSET))
}

/// How many hostile archetypes the difficulty unlocks.
pub open spec fn unlocked_kinds(difficulty: int) -> int {
    if difficulty >= 4 {
        5
    } else {
        difficulty + 1
    }
}

/// The agent is a freshly spawned hostile of an unlocked archetype
/// at an inset edge position.
pub open spec fn is_spawned_enemy(half_w: int, half_h: int, difficulty: int, a: Agent) -> bool {
    exists|i: int, p: Vec2I|
        0 <= i < unlocked_kinds(difficulty) && on_spawn_edge(half_w, half_h, p) && a
            == #[trigger] enemy_spec(spec_enemy_archetype(i), p)
}

/// An edge position chosen by three uniform draws: one picks the
/// axis, one the side, one the position along that side; the point
/// sits `SPAWN_INSET` inside the chosen edge.
pub open spec fn edge_pos_spec(half_w: int, half_h: int, r1: u32, r2: u32, r3: u32) -> Vec2I {
    let axis = r1 % 2 == 0;
    let side = r2 % 2 == 0;
    if axis {
        let y = (r3 as int) % (2 * half_h + 1) - half_h;
        let x = if side {
            -half_w + SPAWN_INSET
        } else {
            half_w - SPAWN_INSET
        };
        Vec2I { x: x as i64, y: y as i64 }
    } else {
        let x = (r3 as int) % (2 * half_w + 1) - half_w;
        let y = if side {
            -half_h + SPAWN_INSET
        } else {
            half_h - SPAWN_INSET
        };
        Vec2I { x: x as i64, y: y as i64 }
    }
}

/// Pick an edge position from three uniform draws.
pub fn edge_position(half_w: i64, half_h: i64, r1: u32, r2: u32, r3: u32) -> (r: Vec2I)
    requires
        SPAWN_INSET <= half_w <= COORD_LIM,
        SPAWN_INSET <= half_h <= COORD_LIM,
        half_w < 0x7fff_ffff,
        half_h < 0x7fff_ffff,
    ensures
        r == edge_pos_spec(half_w as int, half_h as int, r1, r2, r3),
        in_coord_range(r),
        on_spawn_edge(half_w as int, half_h as int, r),
{
    let axis = r1 % 2 == 0;
    let side = r2 % 2 == 0;
    if axis {
        let span: u64 = (2 * half_h + 1) as u64;
        let y: i64 = ((r3 as u64) % span) as i64 - half_h;
        let x: i64 = if side {
            -half_w + SPAWN_INSET
        } else {
            half_w - SPAWN_INSET
        };
        Vec2I { x, y }
    } else {
        let span: u64 = (2 * half_w + 1) as u64;
        let x: i64 = ((r3 as u64) % span) as i64 - half_w;
        let y: i64 = if side {
            -half_h + SPAWN_INSET
        } else {
            half_h - SPAWN_INSET
        };
        Vec2I { x, y }
    }
}

/// The archetype's arrival frequency at a difficulty, in millionths
/// of arrivals per second, following each archetype's ramp.
pub fn archetype_frequency(idx: usize, difficulty: u32) -> (r: u64)
    requires
        idx < 5,
        difficulty <= 1_000,
    ensures
        r <= 2_000_000,
{
    let f: u64 = difficulty as u64;
    match idx {
        0 => if f < 20 {
            (f + 2) * 50_000
        } else {
            1_000_000 / (f - 19)
        },
        1 => if f < 40 {
            (f * 5_000 + 10_000) / 10
        } else {
            1_000 / (f - 39)
        },
        2 => (f * 5_000 + 10_000) / 10,
        3 => (f * 5_000 + 10_000) / 10,
        _ => (f * 5_000 + 10_000) / 20,
    }
}

/// Spawn one wave: for each archetype unlocked at the difficulty,
/// draw a Poisson count at rate `dt * (0.5 + frequency)` and place
/// that many new hostiles at random edge positions, never letting
/// the hostile population exceed `MAX_ENEMIES`.  Existing agents,
/// projectiles and events are untouched.
pub fn spawn_wave(w: &mut World, dt: i64, difficulty: u32)
    requires
        old(w).wf(),
        0 <= dt <= DT_MAX,
        difficulty <= 1_000,
        SPAWN_INSET <= old(w).half_width < 0x7fff_ffff,
        SPAWN_INSET <= old(w).half_height < 0x7fff_ffff,
        old(w).slots.len() + 600 < usize::MAX,
    ensures
        final(w).wf(),
        hostiles_upto(final(w).slots@, final(w).slots.len() as int) <= if hostiles_upto(
            old(w).slots@,
            old(w).slots.len() as int,
        ) >= MAX_ENEMIES {
            hostiles_upto(old(w).slots@, old(w).slots.len() as int)
        } else {
            MAX_ENEMIES as int
        },
        forall|id: crate::world::AgentId|
            old(w).valid_id(id) ==> final(w).valid_id(id) && final(w).agent_of(id) == old(
                w,
            ).agent_of(id),
        forall|j: int|
            0 <= j < final(w).slots.len() && (j >= old(w).slots.len() || old(
                w,
            ).slots[j].agent is None) && (#[trigger] final(w).slots[j]).agent is Some
                ==> is_spawned_enemy(
                old(w).half_width as int,
                old(w).half_height as int,
                difficulty as int,
                final(w).slots[j].agent.unwrap(),
            ),
        final(w).projectiles == old(w).projectiles,
        final(w).events == old(w).events,
        final(w).half_width == old(w).half_width,
        final(w).half_height == old(w).half_height,
{
    let kinds: usize = if difficulty >= 4 {
        5
    } else {
        (difficulty + 1) as usize
    };
    let mut idx: usize = 0;
    while idx < kinds
        invariant
            old(w).wf(),
            w.wf(),
            0 <= dt <= DT_MAX,
            difficulty <= 1_000,
            kinds <= 5,
            idx <= kinds,
            SPAWN_INSET <= w.half_width < 0x7fff_ffff,
            SPAWN_INSET <= w.half_height < 0x7fff_ffff,
            w.slots.len() + (5 - idx) * 100 < usize::MAX,
            hostiles_upto(w.slots@, w.slots.len() as int) <= if hostiles_upto(
                old(w).slots@,
                old(w).slots.len() as int,
            ) >= MAX_ENEMIES {
                hostiles_upto(old(w).slots@, old(w).slots.len() as int)
            } else {
                MAX_ENEMIES as int
            },
            forall|id: crate::world::AgentId|
                old(w).valid_id(id) ==> w.valid_id(id) && w.agent_of(id) == old(w).agent_of(id),
            forall|j: int|
                0 <= j < w.slots.len() && (j >= old(w).slots.len() || old(
                    w,
                ).slots[j].agent is None) && (#[trigger] w.slots[j]).agent is Some
                    ==> is_spawned_enemy(
                    old(w).half_width as int,
                    old(w).half_height as int,
                    difficulty as int,
                    w.slots[j].agent.unwrap(),
                ),
            kinds == unlocked_kinds(difficulty as int),
            w.projectiles == old(w).projectiles,
            w.events == old(w).events,
            w.half_width == old(w).half_width,
            w.half_height == old(w).half_height,
        decreases kinds - idx,
    {
        let freq = archetype_frequency(idx, difficulty);
        proof {
            assert((dt as int) * (500_000 + freq as int) <= 9_000_000_000_000)
                by (nonlinear_arith)
                requires
                    0 <= dt <= DT_MAX,
                    0 <= freq <= 2_000_000,
            ;
        }
        // rate in millionths: dt ms * (0.5 + freq) per second
        let lambda_micro: u64 = (dt as u64) * (500_000 + freq) / 1000;
        let threshold = crate::expfp::exp_neg_micro(lambda_micro);
        let mut draws: Vec<u32> = Vec::new();
        let mut d: usize = 0;
        while d < MAX_ENEMIES + 1
            invariant
                draws.len() == d,
                d <= MAX_ENEMIES + 1,
            decreases MAX_ENEMIES + 1 - d,
        {
            draws.push(random_u32());
            d = d + 1;
        }
        let num = poisson_count(threshold, MAX_ENEMIES, &draws);
        let arch = enemy_archetype(idx);
        let mut s: usize = 0;
        while s < num
            invariant
                old(w).wf(),
                w.wf(),
                idx < 5,
                s <= num,
                num <= MAX_ENEMIES,
                SPAWN_INSET <= w.half_width < 0x7fff_ffff,
                SPAWN_INSET <= w.half_height < 0x7fff_ffff,
                w.slots.len() + (5 - idx) * 100 - s < usize::MAX,
                hostiles_upto(w.slots@, w.slots.len() as int) <= if hostiles_upto(
                    old(w).slots@,
                    old(w).slots.len() as int,
                ) >= MAX_ENEMIES {
                    hostiles_upto(old(w).slots@, old(w).slots.len() as int)
                } else {
                    MAX_ENEMIES as int
                },
                forall|id: crate::world::AgentId|
                    old(w).valid_id(id) ==> w.valid_id(id) && w.agent_of(id) == old(
                        w,
                    ).agent_of(id),
                forall|j: int|
                    0 <= j < w.slots.len() && (j >= old(w).slots.len() || old(
                        w,
                    ).slots[j].agent is None) && (#[trigger] w.slots[j]).agent is Some
                        ==> is_spawned_enemy(
                        old(w).half_width as int,
                        old(w).half_height as int,
                        difficulty as int,
                        w.slots[j].agent.unwrap(),
                    ),
                idx < unlocked_kinds(difficulty as int),
                arch == spec_enemy_archetype(idx as int),
                w.projectiles == old(w).projectiles,
                w.events == old(w).events,
                w.half_width == old(w).half_width,
                w.half_height == old(w).half_height,
            decreases num - s,
        {
            let current = count_hostiles(w);
            if current < MAX_ENEMIES {
                let r1 = random_u32();
                let r2 = random_u32();
                let r3 = random_u32();
                let pos = edge_position(w.half_width, w.half_height, r1, r2, r3);
                let enemy = make_enemy(arch, pos);
                let ghost pre = w.slots@;
                let ghost w_pre = *w;
                let nid = w.spawn_agent(enemy);
                proof {
                    assert(enemy == enemy_spec(spec_enemy_archetype(idx as int), pos));
                    assert(on_spawn_edge(
                        old(w).half_width as int,
                        old(w).half_height as int,
                        pos,
                    ));
                    assert((idx as int) < unlocked_kinds(difficulty as int));
                    assert(is_spawned_enemy(
                        old(w).half_width as int,
                        old(w).half_height as int,
                        difficulty as int,
                        enemy,
                    ));
                    assert forall|j: int|
                        0 <= j < w.slots.len() && (j >= old(w).slots.len() || old(
                            w,
                        ).slots[j].agent is None) && (#[trigger] w.slots[j]).agent is Some
                            implies is_spawned_enemy(
                        old(w).half_width as int,
                        old(w).half_height as int,
                        difficulty as int,
                        w.slots[j].agent.unwrap(),
                    ) by {
                        if j != nid.idx {
                            assert(w.slots[j] == w_pre.slots[j]);
                        }
                    }
                    lemma_hostiles_nonneg(pre, pre.len() as int);
                    if (nid.idx as int) < pre.len() {
                        lemma_hostiles_fill(pre, w.slots@, nid.idx as int, pre.len() as int);
                    } else {
                        lemma_hostiles_agree(pre, w.slots@, pre.len() as int);
                        assert(hostiles_upto(w.slots@, w.slots.len() as int) == hostiles_upto(
                            w.slots@,
                            pre.len() as int,
                        ) + 1);
                    }
                }
            }
            s = s + 1;
        }
        idx = idx + 1;
    }
}

} // verus!
