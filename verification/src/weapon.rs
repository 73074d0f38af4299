//! Fire control: cooldown bookkeeping and projectile spawning.
//!
//! Each tick an enabled weapon whose cooldown has run
//! out fires its archetype's pattern: a single shot, a seven-shot
//! angular spread, or a quartet of homing missiles.  The cooldown is
//! reset by adding the weapon's interval, never by overwriting it,
//! so overshoot carries into the next interval and the firing rate
//! does not drift with the tick length.

use crate::aim::velocity_along;
use crate::angle::{norm_ang, norm_angle, ANGLE_LIM};
use crate::geom::{
    clamp_i, iabs, in_coord_range, mul_div_i64, mul_div_trunc, velocity_from_heading, Vec2I,
    COORD_LIM, DT_MAX, SCALE, VEL_LIM,
};
use crate::health::HEALTH_LIM;
use crate::rng::random_u32;
use crate::world::{
    projectile_wf, Agent, AgentId, Archetype, Homing, Projectile, Shooter, Slot, World,
    COOLDOWN_LIM,
};
use vstd::pervasive::VecAdditionalExecFns;
use vstd::prelude::*;

verus! {

/// Firing intervals, in milliseconds.
pub const SHOOT_INTERVAL_MS: i64 = 250;

pub const ENEMY_SHOOT_INTERVAL_MS: i64 = 500;

pub const SHOTGUN_INTERVAL_MS: i64 = 750;

pub const MISSILE_INTERVAL_MS: i64 = 2_500;

/// Projectile speeds, in position units per second.
pub const BULLET_SPEED: i64 = 500_000;

pub const MISSILE_SPEED: i64 = 300_000;

/// How long a missile lives, in milliseconds.
pub const MISSILE_TTL_MS: i64 = 10_000;

/// Angular spacing of spread shots (a twentieth of a half turn).
pub const SPREAD_STEP: i64 = 50_000;

/// Sideways launch spacing of missiles, in position units.
pub const MISSILE_OFFSET: i64 = 20_000;

/// Whether the archetype aims its shots (the plain enemies fire in
/// random directions instead).
pub open spec fn aimed_archetype(arch: Archetype) -> bool {
    !(arch is BasicEnemy || arch is BossEnemy)
}

/// Whether the archetype fires the missile pattern.
pub open spec fn missile_archetype(arch: Archetype) -> bool {
    arch is MissileTower || arch is MissileEnemy
}

/// The agent's weapon fires this tick: it is enabled, the cooldown
/// has run out, and a missile pattern has a latched target.
pub open spec fn fires(a: Agent, dt: int) -> bool {
    match a.shooter {
        Some(s) => {
            &&& s.enabled
            &&& s.cooldown <= dt
            &&& (missile_archetype(a.archetype) ==> a.target is Some)
        },
        None => false,
    }
}

/// The fixed firing interval of an aimed archetype.
pub open spec fn interval_of(a: Agent) -> int {
    if a.archetype is Shotgun {
        SHOTGUN_INTERVAL_MS as int
    } else if missile_archetype(a.archetype) {
        MISSILE_INTERVAL_MS as int
    } else if a.hostile {
        ENEMY_SHOOT_INTERVAL_MS as int
    } else {
        SHOOT_INTERVAL_MS as int
    }
}

/// How many projectiles the agent's pattern fires this tick.
pub open spec fn agent_shot_count(a: Agent, dt: int) -> int {
    if fires(a, dt) {
        if a.archetype is Shotgun {
            7
        } else if missile_archetype(a.archetype) {
            4
        } else {
            1
        }
    } else {
        0
    }
}

/// How many projectiles slot `j` adds this tick.
pub open spec fn slot_shot_count(w: World, dt: int, j: int) -> int {
    if 0 <= j < w.slots.len() && w.slots[j].agent is Some {
        agent_shot_count(w.agent_at(j), dt)
    } else {
        0
    }
}

/// Total projectiles added by slots below `j`.
pub open spec fn shots_upto(w: World, dt: int, j: int) -> int
    decreases j,
{
    if j <= 0 {
        0
    } else {
        shots_upto(w, dt, j - 1) + slot_shot_count(w, dt, j - 1)
    }
}

/// Shot totals are never negative.
proof fn lemma_shots_upto_nonneg(w: World, dt: int, j: int)
    ensures
        shots_upto(w, dt, j) >= 0,
    decreases j,
{
    if j > 0 {
        lemma_shots_upto_nonneg(w, dt, j - 1);
    }
}

/// The missile quartet's lateral positions, by pattern index.
pub open spec fn spread_slot(k: int) -> int {
    if k == 0 {
        -2
    } else if k == 1 {
        -1
    } else if k == 2 {
        1
    } else {
        2
    }
}

/// A plain bullet launched from `pos` along `ang`.
pub open spec fn bullet_spec(
    pos: Vec2I,
    ang: int,
    speed: int,
    th: bool,
    owner: AgentId,
    damage: u64,
) -> Projectile {
    Projectile {
        pos,
        vel: (Vec2I {
            x: mul_div_trunc(speed, crate::geom::cos_fp_spec(norm_ang(ang)), SCALE as int) as i64,
            y: mul_div_trunc(speed, crate::geom::sin_fp_spec(norm_ang(ang)), SCALE as int) as i64,
        }),
        heading: norm_ang(ang) as i64,
        targets_hostile: th,
        owner,
        damage,
        homing: None,
    }
}

/// The launch position of a missile: its firer's position shifted
/// sideways (relative to the launch angle) by `off`.
pub open spec fn missile_launch_pos(pos: Vec2I, h: int, off: int) -> Vec2I {
    Vec2I {
        x: clamp_i(
            pos.x + mul_div_trunc(off, crate::geom::sin_fp_spec(h), SCALE as int),
            COORD_LIM as int,
        ) as i64,
        y: clamp_i(
            pos.y - mul_div_trunc(off, crate::geom::cos_fp_spec(h), SCALE as int),
            COORD_LIM as int,
        ) as i64,
    }
}

/// A homing missile launched from beside `pos` along `ang`, aimed at
/// the faction `th` (the firer's filter, inverted), latched onto
/// `target`, with a trail seeded at its launch position.
pub open spec fn missile_ok(
    p: Projectile,
    pos: Vec2I,
    ang: int,
    off: int,
    th: bool,
    target: AgentId,
    owner: AgentId,
    damage: u64,
) -> bool {
    let h = norm_ang(ang);
    let lp = missile_launch_pos(pos, h, off);
    &&& p.pos == lp
    &&& p.heading == h
    &&& velocity_along(p.vel, h, MISSILE_SPEED as int)
    &&& p.targets_hostile == th
    &&& p.owner == owner
    &&& p.damage == damage
    &&& p.homing is Some
    &&& p.homing.unwrap().target == Some(target)
    &&& p.homing.unwrap().ttl == MISSILE_TTL_MS
    &&& p.homing.unwrap().trail@ == seq![lp]
}

/// An unaimed bullet: correct firer, faction, damage and speed, in
/// some direction.
pub open spec fn unaimed_ok(p: Projectile, pos: Vec2I, th: bool, owner: AgentId, damage: u64)
    -> bool {
    &&& p.pos == pos
    &&& velocity_along(p.vel, p.heading as int, BULLET_SPEED as int)
    &&& p.targets_hostile == th
    &&& p.owner == owner
    &&& p.damage == damage
    &&& p.homing is None
    &&& projectile_wf(p)
}

/// The `k`-th projectile that slot `j`'s firing pattern owes.
pub open spec fn shot_ok(w: World, j: int, dt: int, k: int, p: Projectile) -> bool {
    shot_ok_a(w.agent_at(j), w.id_at(j), k, p)
}

/// The `k`-th projectile that agent `a`'s firing pattern owes.
pub open spec fn shot_ok_a(a: Agent, owner: AgentId, k: int, p: Projectile) -> bool {
    let th = !a.hostile;
    let dmg = a.shooter.unwrap().damage;
    match a.archetype {
        Archetype::Shotgun => p == bullet_spec(
            a.pos,
            a.heading + (k - 3) * SPREAD_STEP,
            BULLET_SPEED as int,
            th,
            owner,
            dmg,
        ),
        Archetype::MissileTower | Archetype::MissileEnemy => missile_ok(
            p,
            a.pos,
            a.heading - spread_slot(k) * SPREAD_STEP,
            spread_slot(k) * MISSILE_OFFSET,
            th,
            a.target.unwrap(),
            owner,
            dmg,
        ),
        Archetype::BasicEnemy | Archetype::BossEnemy => unaimed_ok(p, a.pos, th, owner, dmg),
        _ => p == bullet_spec(a.pos, a.heading as int, BULLET_SPEED as int, th, owner, dmg),
    }
}

/// Some firing agent owes the appended projectile `p` this tick.
pub open spec fn appended_shot_ok(w: World, dt: int, p: Projectile) -> bool {
    exists|j: int, k: int|
        0 <= j < w.slots.len() && 0 <= k < slot_shot_count(w, dt, j) && #[trigger] shot_ok(
            w,
            j,
            dt,
            k,
            p,
        )
}

/// The cooldown after a tick: reset by one interval on firing,
/// ticked down while the weapon is enabled, untouched while it is
/// disabled; clamped so it stays in the well-formed range.
pub open spec fn cooldown_ticked(cd: int, dt: int, add: int, fired: bool, enabled: bool) -> int {
    if fired {
        if cd + add - dt < -DT_MAX {
            -DT_MAX as int
        } else {
            cd + add - dt
        }
    } else if enabled {
        if cd - dt < -DT_MAX {
            -DT_MAX as int
        } else {
            cd - dt
        }
    } else {
        cd
    }
}

/// The shooter state this phase leaves on an agent.  Aimed
/// archetypes reset by their fixed interval; the unaimed ones reset
/// by a random fraction of twice the base interval, so only bounds
/// are promised.
pub open spec fn shooter_ticked(a: Agent, dt: int, s2: Option<Shooter>) -> bool {
    match a.shooter {
        None => s2 is None,
        Some(s) => {
            &&& s2 is Some
            &&& (s2.unwrap() == (Shooter { cooldown: s2.unwrap().cooldown, ..s }))
            &&& if aimed_archetype(a.archetype) {
                s2.unwrap().cooldown == cooldown_ticked(
                    s.cooldown as int,
                    dt,
                    interval_of(a),
                    fires(a, dt),
                    s.enabled,
                )
            } else if fires(a, dt) {
                exists|add: int|
                    0 <= add < 2 * SHOOT_INTERVAL_MS && s2.unwrap().cooldown == cooldown_ticked(
                        s.cooldown as int,
                        dt,
                        add,
                        true,
                        true,
                    )
            } else {
                s2.unwrap().cooldown == cooldown_ticked(s.cooldown as int, dt, 0, false, s.enabled)
            }
        },
    }
}

fn clamp_cooldown(cd: i64) -> (r: i64)
    requires
        -4 * DT_MAX <= cd <= COOLDOWN_LIM,
    ensures
        r == (if cd < -DT_MAX {
            -DT_MAX as int
        } else {
            cd as int
        }),
        -DT_MAX <= r <= COOLDOWN_LIM,
{
    if cd < -DT_MAX {
        -DT_MAX
    } else {
        cd
    }
}

/// Build a plain bullet.
fn build_bullet(pos: Vec2I, ang: i64, speed: i64, th: bool, owner: AgentId, damage: u64) -> (p:
    Projectile)
    requires
        in_coord_range(pos),
        -2 * ANGLE_LIM <= ang <= 2 * ANGLE_LIM,
        0 < speed <= VEL_LIM,
        0 < damage <= HEALTH_LIM,
    ensures
        p == bullet_spec(pos, ang as int, speed as int, th, owner, damage),
        p.heading as int == norm_ang(ang as int),
        velocity_along(p.vel, p.heading as int, speed as int),
        projectile_wf(p),
{
    let h = norm_angle(ang);
    let vel = velocity_from_heading(h, speed);
    Projectile { pos, vel, heading: h, targets_hostile: th, owner, damage, homing: None }
}

/// Build one homing missile of the quartet, aimed at faction `th`.
fn build_missile(
    pos: Vec2I,
    ang: i64,
    off: i64,
    th: bool,
    target: AgentId,
    owner: AgentId,
    damage: u64,
) -> (p: Projectile)
    requires
        in_coord_range(pos),
        -2 * ANGLE_LIM <= ang <= 2 * ANGLE_LIM,
        -100_000 <= off <= 100_000,
        0 < damage <= HEALTH_LIM,
    ensures
        missile_ok(p, pos, ang as int, off as int, th, target, owner, damage),
        projectile_wf(p),
{
    let h = norm_angle(ang);
    let s = crate::geom::sin_fp(h);
    let c = crate::geom::cos_fp(h);
    let dx = mul_div_i64(off, s, SCALE);
    let dy = mul_div_i64(off, c, SCALE);
    proof {
        assert(iabs(off as int) * iabs(s as int) <= 100_000_000_000) by (nonlinear_arith)
            requires
                iabs(off as int) <= 100_000,
                iabs(s as int) <= 1_000_000,
        ;
        assert(iabs(off as int) * iabs(c as int) <= 100_000_000_000) by (nonlinear_arith)
            requires
                iabs(off as int) <= 100_000,
                iabs(c as int) <= 1_000_000,
        ;
        vstd::arithmetic::div_mod::lemma_div_is_ordered(
            iabs(off as int) * iabs(s as int),
            100_000_000_000,
            SCALE as int,
        );
        vstd::arithmetic::div_mod::lemma_div_is_ordered(
            iabs(off as int) * iabs(c as int),
            100_000_000_000,
            SCALE as int,
        );
    }
    let lx = if pos.x + dx > COORD_LIM {
        COORD_LIM
    } else if pos.x + dx < -COORD_LIM {
        -COORD_LIM
    } else {
        pos.x + dx
    };
    let ly = if pos.y - dy > COORD_LIM {
        COORD_LIM
    } else if pos.y - dy < -COORD_LIM {
        -COORD_LIM
    } else {
        pos.y - dy
    };
    let lp = Vec2I { x: lx, y: ly };
    let vel = velocity_from_heading(h, MISSILE_SPEED);
    let mut trail: Vec<Vec2I> = Vec::new();
    trail.push(lp);
    proof {
        assert(trail@ == seq![lp]);
    }
    Projectile {
        pos: lp,
        vel,
        heading: h,
        targets_hostile: th,
        owner,
        damage,
        homing: Some(Homing { target: Some(target), ttl: MISSILE_TTL_MS, trail }),
    }
}

/// The seven-shot spread of a shotgun tower.
fn shotgun_shots(a: Agent, owner: AgentId) -> (r: Vec<Projectile>)
    requires
        crate::world::agent_wf(a),
        a.shooter is Some,
        a.archetype is Shotgun,
    ensures
        r.len() == 7,
        forall|k: int|
            0 <= k < 7 ==> #[trigger] shot_ok_a(a, owner, k, r[k]) && projectile_wf(r[k]),
{
    let s = a.shooter.unwrap();
    let mut shots: Vec<Projectile> = Vec::new();
    let p0 = build_bullet(a.pos, a.heading + (0 - 3) * SPREAD_STEP, BULLET_SPEED, !a.hostile,
        owner, s.damage);
    let p1 = build_bullet(a.pos, a.heading + (1 - 3) * SPREAD_STEP, BULLET_SPEED, !a.hostile,
        owner, s.damage);
    let p2 = build_bullet(a.pos, a.heading + (2 - 3) * SPREAD_STEP, BULLET_SPEED, !a.hostile,
        owner, s.damage);
    let p3 = build_bullet(a.pos, a.heading + (3 - 3) * SPREAD_STEP, BULLET_SPEED, !a.hostile,
        owner, s.damage);
    let p4 = build_bullet(a.pos, a.heading + (4 - 3) * SPREAD_STEP, BULLET_SPEED, !a.hostile,
        owner, s.damage);
    let p5 = build_bullet(a.pos, a.heading + (5 - 3) * SPREAD_STEP, BULLET_SPEED, !a.hostile,
        owner, s.damage);
    let p6 = build_bullet(a.pos, a.heading + (6 - 3) * SPREAD_STEP, BULLET_SPEED, !a.hostile,
        owner, s.damage);
    shots.push(p0);
    shots.push(p1);
    shots.push(p2);
    shots.push(p3);
    shots.push(p4);
    shots.push(p5);
    shots.push(p6);
    shots
}

/// The missile quartet of a missile platform.
fn missile_shots(a: Agent, owner: AgentId) -> (r: Vec<Projectile>)
    requires
        crate::world::agent_wf(a),
        a.shooter is Some,
        missile_archetype(a.archetype),
        a.target is Some,
    ensures
        r.len() == 4,
        forall|k: int|
            0 <= k < 4 ==> #[trigger] shot_ok_a(a, owner, k, r[k]) && projectile_wf(r[k]),
{
    let s = a.shooter.unwrap();
    let tgt = a.target.unwrap();
    let mut shots: Vec<Projectile> = Vec::new();
    let p0 = build_missile(a.pos, a.heading - (-2) * SPREAD_STEP, (-2) * MISSILE_OFFSET,
        !a.hostile, tgt, owner, s.damage);
    let p1 = build_missile(a.pos, a.heading - (-1) * SPREAD_STEP, (-1) * MISSILE_OFFSET,
        !a.hostile, tgt, owner, s.damage);
    let p2 = build_missile(a.pos, a.heading - 1 * SPREAD_STEP, 1 * MISSILE_OFFSET, !a.hostile,
        tgt, owner, s.damage);
    let p3 = build_missile(a.pos, a.heading - 2 * SPREAD_STEP, 2 * MISSILE_OFFSET, !a.hostile,
        tgt, owner, s.damage);
    shots.push(p0);
    shots.push(p1);
    shots.push(p2);
    shots.push(p3);
    shots
}

/// One agent's firing decision: the projectiles its pattern owes
/// this tick (in pattern order) and its next cooldown.
fn fire_pattern(a: Agent, owner: AgentId, dt: i64) -> (r: (Vec<Projectile>, i64))
    requires
        crate::world::agent_wf(a),
        a.shooter is Some,
        0 <= dt <= DT_MAX,
    ensures
        r.0.len() == agent_shot_count(a, dt as int),
        forall|k: int|
            0 <= k < r.0.len() ==> #[trigger] shot_ok_a(a, owner, k, r.0[k]) && projectile_wf(
                r.0[k],
            ),
        shooter_ticked(a, dt as int, Some((Shooter { cooldown: r.1, ..a.shooter.unwrap() }))),
        crate::world::shooter_wf((Shooter { cooldown: r.1, ..a.shooter.unwrap() })),
{
    let s = a.shooter.unwrap();
    let can_fire = s.enabled && s.cooldown <= dt && (match a.archetype {
        Archetype::MissileTower | Archetype::MissileEnemy => a.target.is_some(),
        _ => true,
    });
    proof {
        assert(can_fire == fires(a, dt as int));
    }
    if can_fire {
        match a.archetype {
            Archetype::Shotgun => {
                let shots = shotgun_shots(a, owner);
                (shots, clamp_cooldown(s.cooldown + SHOTGUN_INTERVAL_MS - dt))
            },
            Archetype::MissileTower | Archetype::MissileEnemy => {
                let shots = missile_shots(a, owner);
                (shots, clamp_cooldown(s.cooldown + MISSILE_INTERVAL_MS - dt))
            },
            Archetype::BasicEnemy | Archetype::BossEnemy => {
                let ang = (random_u32() % 2_000_000) as i64;
                let p0 = build_bullet(a.pos, ang, BULLET_SPEED, !a.hostile, owner, s.damage);
                proof {
                    crate::angle::lemma_norm_range(ang as int);
                }
                let mut shots: Vec<Projectile> = Vec::new();
                shots.push(p0);
                proof {
                    assert(p0.heading as int == crate::angle::norm_ang(ang as int));
                    assert(unaimed_ok(p0, a.pos, !a.hostile, owner, s.damage));
                    assert(shot_ok_a(a, owner, 0, p0));
                }
                let add: i64 = ((250u64 * ((random_u32() % 2000) as u64)) / 1000) as i64;
                let new_cd = clamp_cooldown(s.cooldown + add - dt);
                proof {
                    assert(0 <= add < 2 * SHOOT_INTERVAL_MS);
                    assert(new_cd == cooldown_ticked(
                        s.cooldown as int,
                        dt as int,
                        add as int,
                        true,
                        true,
                    ));
                }
                (shots, new_cd)
            },
            _ => {
                let p0 = build_bullet(a.pos, a.heading, BULLET_SPEED, !a.hostile, owner,
                    s.damage);
                let mut shots: Vec<Projectile> = Vec::new();
                shots.push(p0);
                proof {
                    assert(shot_ok_a(a, owner, 0, p0));
                }
                let interval = if a.hostile {
                    ENEMY_SHOOT_INTERVAL_MS
                } else {
                    SHOOT_INTERVAL_MS
                };
                (shots, clamp_cooldown(s.cooldown + interval - dt))
            },
        }
    } else {
        let shots: Vec<Projectile> = Vec::new();
        if s.enabled {
            (shots, clamp_cooldown(s.cooldown - dt))
        } else {
            (shots, s.cooldown)
        }
    }
}

/// The fire-control phase: tick every weapon's cooldown, and spawn
/// the firing patterns of every weapon that fires this tick.  Agents
/// change only in their shooter state; the projectile list grows by
/// exactly the owed number of shots, each satisfying its firer's
/// pattern; events and bounds are untouched.
#[verifier::rlimit(100)]
pub fn fire_phase(w: &mut World, dt: i64)
    requires
        old(w).wf(),
        0 <= dt <= DT_MAX,
    ensures
        final(w).wf(),
        final(w).slots.len() == old(w).slots.len(),
        forall|j: int|
            0 <= j < old(w).slots.len() ==> (#[trigger] final(w).slots[j]).gen == old(
                w,
            ).slots[j].gen && (if old(w).slots[j].agent is Some {
                &&& final(w).slots[j].agent is Some
                &&& final(w).slots[j].agent.unwrap() == (Agent {
                    shooter: final(w).slots[j].agent.unwrap().shooter,
                    ..old(w).slots[j].agent.unwrap()
                })
                &&& shooter_ticked(
                    old(w).slots[j].agent.unwrap(),
                    dt as int,
                    final(w).slots[j].agent.unwrap().shooter,
                )
            } else {
                final(w).slots[j].agent is None
            }),
        final(w).projectiles.len() == old(w).projectiles.len() + shots_upto(
            *old(w),
            dt as int,
            old(w).slots.len() as int,
        ),
        forall|m: int|
            0 <= m < old(w).projectiles.len() ==> #[trigger] final(w).projectiles[m] == old(
                w,
            ).projectiles[m],
        forall|m: int|
            old(w).projectiles.len() <= m < final(w).projectiles.len() ==> appended_shot_ok(
                *old(w),
                dt as int,
                #[trigger] final(w).projectiles[m],
            ),
        final(w).events == old(w).events,
        final(w).half_width == old(w).half_width,
        final(w).half_height == old(w).half_height,
{
    let n = w.slots.len();
    let old_len = w.projectiles.len();
    let mut i: usize = 0;
    while i < n
        invariant
            old(w).wf(),
            w.wf(),
            0 <= dt <= DT_MAX,
            n == w.slots.len() == old(w).slots.len(),
            i <= n,
            old_len == old(w).projectiles.len(),
            w.events == old(w).events,
            w.half_width == old(w).half_width,
            w.half_height == old(w).half_height,
            forall|j: int| i <= j < n ==> w.slots[j] == old(w).slots[j],
            forall|j: int|
                0 <= j < i ==> (#[trigger] w.slots[j]).gen == old(w).slots[j].gen && (if old(
                    w,
                ).slots[j].agent is Some {
                    &&& w.slots[j].agent is Some
                    &&& w.slots[j].agent.unwrap() == (Agent {
                        shooter: w.slots[j].agent.unwrap().shooter,
                        ..old(w).slots[j].agent.unwrap()
                    })
                    &&& shooter_ticked(
                        old(w).slots[j].agent.unwrap(),
                        dt as int,
                        w.slots[j].agent.unwrap().shooter,
                    )
                } else {
                    w.slots[j].agent is None
                }),
            w.projectiles.len() == old_len + shots_upto(*old(w), dt as int, i as int),
            forall|m: int|
                0 <= m < old_len ==> #[trigger] w.projectiles[m] == old(w).projectiles[m],
            forall|m: int|
                old_len <= m < w.projectiles.len() ==> appended_shot_ok(
                    *old(w),
                    dt as int,
                    #[trigger] w.projectiles[m],
                ),
        decreases n - i,
    {
        proof {
            assert(shots_upto(*old(w), dt as int, i + 1 as int) == shots_upto(
                *old(w),
                dt as int,
                i as int,
            ) + slot_shot_count(*old(w), dt as int, i as int));
        }
        let slot = w.slots[i];
        if let Some(a) = slot.agent {
            if a.shooter.is_some() {
                let owner = AgentId { idx: i, gen: slot.gen };
                let ghost w0 = *old(w);
                let ghost jj = i as int;
                proof {
                    assert(a == w0.agent_at(jj));
                    assert(owner == w0.id_at(jj));
                }
                let (mut shots, new_cd) = fire_pattern(a, owner, dt);
                let ghost shots_snap = shots@;
                let ghost pre = w.projectiles@;
                w.projectiles.append(&mut shots);
                proof {
                    lemma_shots_upto_nonneg(w0, dt as int, jj);
                    assert(old_len <= pre.len());
                    assert(w.projectiles@ == pre + shots_snap);
                    assert(shots_snap.len() == slot_shot_count(w0, dt as int, jj));
                    assert forall|m: int| 0 <= m < pre.len() implies #[trigger] w.projectiles[m]
                        == pre[m] by {
                        assert((pre + shots_snap)[m] == pre[m]);
                    }
                    assert forall|m: int|
                        old_len <= m < w.projectiles.len() implies appended_shot_ok(
                        w0,
                        dt as int,
                        #[trigger] w.projectiles[m],
                    ) && projectile_wf(w.projectiles[m]) by {
                        if m < pre.len() {
                            assert(w.projectiles[m] == pre[m]);
                            assert(projectile_wf(pre[m]));
                        } else {
                            let k = m - pre.len();
                            assert(shot_ok_a(a, owner, k, shots_snap[k]));
                            assert(projectile_wf(shots_snap[k]));
                            assert(shot_ok(w0, jj, dt as int, k, w.projectiles[m]));
                        }
                    }
                    assert forall|m: int|
                        0 <= m < w.projectiles.len() implies projectile_wf(
                        #[trigger] w.projectiles[m],
                    ) by {
                        if m < pre.len() {
                            assert(w.projectiles[m] == pre[m]);
                            assert(projectile_wf(pre[m]));
                        }
                    }
                }
                let sh = a.shooter.unwrap();
                let na = Agent { shooter: Some(Shooter { cooldown: new_cd, ..sh }), ..a };
                w.slots.set(i, Slot { gen: slot.gen, agent: Some(na) });
            }
        }
        i = i + 1;
    }
}

} // verus!
