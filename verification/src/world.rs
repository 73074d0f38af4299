//! The agent arena: generation-stamped handles, liveness-checked
//! lookup, deferred destruction, projectiles, and the experience
//! event queue.
//!
//! Cross-references between agents are `AgentId` handles, never
//! direct references: a handle resolves only while its slot holds an
//! agent of the same generation, and destroyed slots bump their
//! generation so stale handles read as absent.

use crate::angle::angle_canonical;
use crate::geom::{dist_sq, distance_sq, in_coord_range, in_vel_range, Vec2I, COORD_LIM, DT_MAX,
    SIZE_LIM};
use crate::health::{health_wf, Health, HEAL_LIM, HEALTH_LIM};
use crate::progression::{progression_wf, Progression};
use vstd::pervasive::VecAdditionalExecFns;
use vstd::prelude::*;

verus! {

/// Longest a weapon cooldown can sit at, in milliseconds.
pub const COOLDOWN_LIM: i64 = 10_000_000;

/// Largest experience value a single death can award.
pub const EXP_VALUE_LIM: u64 = 1_000_000;

/// Most positions a homing trail retains.
pub const TRAIL_CAP: usize = 50;

/// A stable, opaque handle to an agent: a slot index and the
/// generation the slot had when the agent was created.
#[derive(Clone, Copy, Debug, PartialEq, Eq, Structural)]
pub struct AgentId {
    pub idx: usize,
    pub gen: u64,
}

/// The role an agent was spawned as.
#[derive(Clone, Copy, Debug, PartialEq, Eq, Structural)]
pub enum Archetype {
    Turret,
    Shotgun,
    MissileTower,
    Healer,
    BeamTower,
    BasicEnemy,
    BossEnemy,
    AgileEnemy,
    SturdyEnemy,
    MissileEnemy,
}

/// Projectile-weapon state: enabled flag, time left until the next shot
/// (may run negative; overshoot carries into the next interval), and
/// damage per hit in milli-hit-points.
#[derive(Clone, Copy, Debug, PartialEq, Eq, Structural)]
pub struct Shooter {
    pub enabled: bool,
    pub cooldown: i64,
    pub damage: u64,
}

/// Healing state: enabled flag, cooldown, and the amount restored per
/// pulse in milli-hit-points.
#[derive(Clone, Copy, Debug, PartialEq, Eq, Structural)]
pub struct HealerState {
    pub enabled: bool,
    pub cooldown: i64,
    pub heal_amt: u64,
}

/// Beam-weapon state: time left in the current firing burst and time
/// until the next burst may start, both in milliseconds.
#[derive(Clone, Copy, Debug, PartialEq, Eq, Structural)]
pub struct BeamState {
    pub shoot_phase: i64,
    pub cooldown: i64,
}

/// A simulation agent with its spatial state, health, faction and
/// optional capabilities.
#[derive(Clone, Copy, Debug)]
pub struct Agent {
    pub archetype: Archetype,
    pub pos: Vec2I,
    pub heading: i64,
    pub vel: Vec2I,
    pub health: Health,
    /// Faction filter: true for the hostile population.
    pub hostile: bool,
    /// Full width of the collision box, in position units.
    pub radius: i64,
    /// Experience awarded to the killer when this agent dies.
    pub exp_value: u64,
    pub target: Option<AgentId>,
    pub shooter: Option<Shooter>,
    pub progression: Option<Progression>,
    pub healer: Option<HealerState>,
    pub beam: Option<BeamState>,
    pub kills: u64,
    /// Behaviour flag for skirmishing enemies: true while backing off.
    pub retreating: bool,
}

/// Homing payload of a missile: latched target, time to live, and a
/// bounded trail of recent positions (oldest first).
#[derive(Clone, Debug)]
pub struct Homing {
    pub target: Option<AgentId>,
    pub ttl: i64,
    pub trail: Vec<Vec2I>,
}

/// A projectile in flight.
#[derive(Clone, Debug)]
pub struct Projectile {
    pub pos: Vec2I,
    pub vel: Vec2I,
    pub heading: i64,
    /// Faction filter inherited (inverted) from the firer: the
    /// population this projectile damages.
    pub targets_hostile: bool,
    pub owner: AgentId,
    pub damage: u64,
    pub homing: Option<Homing>,
}

/// An experience event: beneficiary, amount, and whether it came
/// from a kill.
#[derive(Clone, Copy, Debug, PartialEq, Eq, Structural)]
pub struct ExpEvent {
    pub target: AgentId,
    pub amount: u64,
    pub killed: bool,
}

/// One arena slot: its current generation and, if occupied, an agent.
#[derive(Clone, Copy, Debug)]
pub struct Slot {
    pub gen: u64,
    pub agent: Option<Agent>,
}

/// Cross-multiplied fraction comparison is transitive: if `vj/mj`
/// is not below `vb/mb`, and `vi/mi` is strictly below `vb/mb`, then
/// `vi/mi` is strictly below `vj/mj`.
proof fn lemma_frac_trans(vj: int, mj: int, vb: int, mb: int, vi: int, mi: int)
    requires
        0 < mj,
        0 < mb,
        0 < mi,
        vj * mb >= vb * mj,
        vi * mb < vb * mi,
    ensures
        vi * mj < vj * mi,
{
    assert(vi * mj * mb < vj * mi * mb) by (nonlinear_arith)
        requires
            0 < mj,
            0 < mb,
            0 < mi,
            vj * mb >= vb * mj,
            vi * mb < vb * mi,
    ;
    assert(vi * mj < vj * mi) by (nonlinear_arith)
        requires
            0 < mb,
            vi * mj * mb < vj * mi * mb,
    ;
}

/// What deferred destruction leaves of a slot: an emptied slot with
/// a bumped generation if its agent's health had reached zero, the
/// slot unchanged otherwise.
pub open spec fn slot_after_commit(s: Slot) -> Slot {
    if s.agent is Some && s.agent.unwrap().health.val == 0 {
        Slot { gen: if s.gen < u64::MAX { (s.gen + 1) as u64 } else { s.gen }, agent: None }
    } else {
        s
    }
}

/// The simulation world: the agent arena, projectiles in flight, the
/// experience event queue, and the playfield half-extents.
pub struct World {
    pub slots: Vec<Slot>,
    pub projectiles: Vec<Projectile>,
    pub events: Vec<ExpEvent>,
    pub half_width: i64,
    pub half_height: i64,
}

pub open spec fn shooter_wf(s: Shooter) -> bool {
    &&& -DT_MAX <= s.cooldown <= COOLDOWN_LIM
    &&& 0 < s.damage <= HEALTH_LIM
}

pub open spec fn healer_state_wf(h: HealerState) -> bool {
    &&& -DT_MAX <= h.cooldown <= COOLDOWN_LIM
    &&& 0 < h.heal_amt <= HEAL_LIM
}

pub open spec fn beam_state_wf(b: BeamState) -> bool {
    &&& 0 <= b.shoot_phase <= COOLDOWN_LIM
    &&& 0 <= b.cooldown <= COOLDOWN_LIM
}

/// A well-formed agent: canonical heading, bounded position and
/// velocity, a coherent health pool, and well-formed capabilities.
pub open spec fn agent_wf(a: Agent) -> bool {
    &&& angle_canonical(a.heading as int)
    &&& in_coord_range(a.pos)
    &&& in_vel_range(a.vel)
    &&& health_wf(a.health)
    &&& 0 < a.radius <= SIZE_LIM
    &&& a.exp_value <= EXP_VALUE_LIM
    &&& match a.shooter {
        Some(s) => shooter_wf(s),
        None => true,
    }
    &&& match a.progression {
        Some(p) => progression_wf(p),
        None => true,
    }
    &&& match a.healer {
        Some(h) => healer_state_wf(h),
        None => true,
    }
    &&& match a.beam {
        Some(b) => beam_state_wf(b),
        None => true,
    }
}

/// A well-formed projectile: bounded spatial state, positive
/// damage, and a bounded homing payload.
pub open spec fn projectile_wf(p: Projectile) -> bool {
    &&& in_coord_range(p.pos)
    &&& in_vel_range(p.vel)
    &&& angle_canonical(p.heading as int)
    &&& 0 < p.damage <= HEALTH_LIM
    &&& match p.homing {
        Some(h) => {
            &&& -1 <= h.ttl <= COOLDOWN_LIM
            &&& h.trail.len() <= TRAIL_CAP
            &&& forall|i: int| 0 <= i < h.trail.len() ==> in_coord_range(#[trigger] h.trail[i])
        },
        None => true,
    }
}

impl World {
    /// All slots, projectiles and bounds are well formed.
    pub open spec fn wf(self) -> bool {
        &&& forall|j: int|
            0 <= j < self.slots.len() && self.slots[j].agent is Some ==> agent_wf(
                #[trigger] self.slots[j].agent.unwrap(),
            )
        &&& forall|k: int|
            0 <= k < self.projectiles.len() ==> projectile_wf(#[trigger] self.projectiles[k])
        &&& 0 < self.half_width <= COORD_LIM
        &&& 0 < self.half_height <= COORD_LIM
    }

    /// The handle still resolves: the slot exists, holds an agent,
    /// and the generations match.
    pub open spec fn valid_id(self, id: AgentId) -> bool {
        &&& id.idx < self.slots.len()
        &&& self.slots[id.idx as int].gen == id.gen
        &&& self.slots[id.idx as int].agent is Some
    }

    /// The agent stored at slot `j` (meaningful only when occupied).
    pub open spec fn agent_at(self, j: int) -> Agent {
        self.slots[j].agent.unwrap()
    }

    /// The agent a valid handle refers to.
    pub open spec fn agent_of(self, id: AgentId) -> Agent {
        self.agent_at(id.idx as int)
    }

    /// The handle resolves and the agent still counts as alive.
    pub open spec fn live(self, id: AgentId) -> bool {
        self.valid_id(id) && self.agent_of(id).health.val > 0
    }

    /// Slot `j` holds a living agent.
    pub open spec fn slot_live(self, j: int) -> bool {
        &&& 0 <= j < self.slots.len()
        &&& self.slots[j].agent is Some
        &&& self.agent_at(j).health.val > 0
    }

    /// The current handle of slot `j`.
    pub open spec fn id_at(self, j: int) -> AgentId {
        AgentId { idx: j as usize, gen: self.slots[j].gen }
    }

    /// An empty world with the given playfield half-extents.
    pub fn new(half_width: i64, half_height: i64) -> (r: World)
        requires
            0 < half_width <= COORD_LIM,
            0 < half_height <= COORD_LIM,
        ensures
            r.wf(),
            r.slots.len() == 0,
            r.projectiles.len() == 0,
            r.events.len() == 0,
            r.half_width == half_width,
            r.half_height == half_height,
    {
        World {
            slots: Vec::new(),
            projectiles: Vec::new(),
            events: Vec::new(),
            half_width,
            half_height,
        }
    }

    /// Liveness-checked lookup: a copy of the agent if the handle
    /// still resolves, absent otherwise.
    pub fn get_agent(&self, id: AgentId) -> (r: Option<Agent>)
        ensures
            r is Some <==> self.valid_id(id),
            r is Some ==> r.unwrap() == self.agent_of(id),
    {
        if id.idx < self.slots.len() {
            let slot = &self.slots[id.idx];
            if slot.gen == id.gen {
                if let Some(a) = slot.agent {
                    return Some(a);
                }
            }
        }
        None
    }

    /// Overwrite the agent a valid handle refers to.
    pub fn set_agent(&mut self, id: AgentId, a: Agent)
        requires
            old(self).valid_id(id),
            old(self).wf(),
            agent_wf(a),
        ensures
            final(self).wf(),
            final(self).slots.len() == old(self).slots.len(),
            final(self).valid_id(id),
            final(self).agent_of(id) == a,
            forall|j: int|
                0 <= j < old(self).slots.len() && j != id.idx ==> final(self).slots[j] == old(
                    self,
                ).slots[j],
            final(self).slots[id.idx as int].gen == old(self).slots[id.idx as int].gen,
            final(self).projectiles == old(self).projectiles,
            final(self).events == old(self).events,
            final(self).half_width == old(self).half_width,
            final(self).half_height == old(self).half_height,
    {
        let gen = self.slots[id.idx].gen;
        self.slots.set(id.idx, Slot { gen, agent: Some(a) });
    }

    /// Place a new agent in the arena, reusing the first free slot
    /// or growing the arena by one, and hand back its handle.  The
    /// handle did not resolve before the call; every other slot is
    /// untouched.
    pub fn spawn_agent(&mut self, a: Agent) -> (r: AgentId)
        requires
            old(self).wf(),
            agent_wf(a),
            old(self).slots.len() < usize::MAX,
        ensures
            final(self).wf(),
            final(self).valid_id(r),
            final(self).agent_of(r) == a,
            !old(self).valid_id(r),
            old(self).slots.len() <= final(self).slots.len() <= old(self).slots.len() + 1,
            forall|j: int|
                0 <= j < old(self).slots.len() && j != r.idx ==> final(self).slots[j] == old(
                    self,
                ).slots[j],
            r.idx < old(self).slots.len() ==> final(self).slots.len() == old(self).slots.len()
                && old(self).slots[r.idx as int].agent is None,
            final(self).projectiles == old(self).projectiles,
            final(self).events == old(self).events,
            final(self).half_width == old(self).half_width,
            final(self).half_height == old(self).half_height,
    {
        let n = self.slots.len();
        let mut i: usize = 0;
        while i < n
            invariant
                self.slots == old(self).slots,
                self.projectiles == old(self).projectiles,
                self.events == old(self).events,
                self.half_width == old(self).half_width,
                self.half_height == old(self).half_height,
                old(self).wf(),
                agent_wf(a),
                n == self.slots.len(),
                i <= n,
                forall|j: int| 0 <= j < i ==> self.slots[j].agent is Some,
            decreases n - i,
        {
            if self.slots[i].agent.is_none() {
                let gen = self.slots[i].gen;
                self.slots.set(i, Slot { gen, agent: Some(a) });
                return AgentId { idx: i, gen };
            }
            i = i + 1;
        }
        self.slots.push(Slot { gen: 0, agent: Some(a) });
        AgentId { idx: n, gen: 0 }
    }

    /// Apply deferred destruction: every slot whose agent's health
    /// has reached zero is emptied and its generation bumped, so
    /// handles to the destroyed agent stop resolving.
    pub fn commit_destroyed(&mut self)
        requires
            old(self).wf(),
        ensures
            final(self).wf(),
            final(self).slots.len() == old(self).slots.len(),
            forall|j: int|
                0 <= j < old(self).slots.len() ==> #[trigger] final(self).slots[j]
                    == slot_after_commit(old(self).slots[j]),
            forall|id: AgentId| old(self).live(id) ==> final(self).live(id) && final(self).agent_of(
                id,
            ) == old(self).agent_of(id),
            final(self).projectiles == old(self).projectiles,
            final(self).events == old(self).events,
            final(self).half_width == old(self).half_width,
            final(self).half_height == old(self).half_height,
    {
        let n = self.slots.len();
        let mut i: usize = 0;
        while i < n
            invariant
                old(self).wf(),
                n == self.slots.len() == old(self).slots.len(),
                i <= n,
                self.projectiles == old(self).projectiles,
                self.events == old(self).events,
                self.half_width == old(self).half_width,
                self.half_height == old(self).half_height,
                forall|j: int| i <= j < n ==> self.slots[j] == old(self).slots[j],
                forall|j: int|
                    0 <= j < i ==> #[trigger] self.slots[j] == slot_after_commit(
                        old(self).slots[j],
                    ),
            decreases n - i,
        {
            let slot = self.slots[i];
            if let Some(a) = slot.agent {
                if a.health.val == 0 {
                    let gen = if slot.gen < u64::MAX {
                        slot.gen + 1
                    } else {
                        slot.gen
                    };
                    self.slots.set(i, Slot { gen, agent: None });
                }
            }
            i = i + 1;
        }
    }

    /// Clear the stage at a round's end: every hostile agent is
    /// removed (its slot's generation bumped so handles go stale),
    /// every surviving agent is restored to full health, and all
    /// projectiles and queued events are dropped.
    pub fn reset_stage(&mut self)
        requires
            old(self).wf(),
        ensures
            final(self).wf(),
            final(self).slots.len() == old(self).slots.len(),
            forall|j: int|
                0 <= j < old(self).slots.len() ==> {
                    let s = old(self).slots[j];
                    let t = #[trigger] final(self).slots[j];
                    if s.agent is Some && s.agent.unwrap().hostile {
                        t.agent is None && t.gen == (if s.gen < u64::MAX {
                            s.gen + 1
                        } else {
                            s.gen as int
                        })
                    } else if s.agent is Some {
                        t.gen == s.gen && t.agent is Some && t.agent.unwrap() == (Agent {
                            health: (Health {
                                val: s.agent.unwrap().health.max,
                                max: s.agent.unwrap().health.max,
                            }),
                            ..s.agent.unwrap()
                        })
                    } else {
                        t == s
                    }
                },
            final(self).projectiles.len() == 0,
            final(self).events.len() == 0,
            final(self).half_width == old(self).half_width,
            final(self).half_height == old(self).half_height,
    {
        let n = self.slots.len();
        let mut i: usize = 0;
        while i < n
            invariant
                old(self).wf(),
                self.wf(),
                n == self.slots.len() == old(self).slots.len(),
                i <= n,
                self.projectiles == old(self).projectiles,
                self.events == old(self).events,
                self.half_width == old(self).half_width,
                self.half_height == old(self).half_height,
                forall|j: int| i <= j < n ==> self.slots[j] == old(self).slots[j],
                forall|j: int|
                    0 <= j < i ==> {
                        let s = old(self).slots[j];
                        let t = #[trigger] self.slots[j];
                        if s.agent is Some && s.agent.unwrap().hostile {
                            t.agent is None && t.gen == (if s.gen < u64::MAX {
                                s.gen + 1
                            } else {
                                s.gen as int
                            })
                        } else if s.agent is Some {
                            t.gen == s.gen && t.agent is Some && t.agent.unwrap() == (Agent {
                                health: (Health {
                                    val: s.agent.unwrap().health.max,
                                    max: s.agent.unwrap().health.max,
                                }),
                                ..s.agent.unwrap()
                            })
                        } else {
                            t == s
                        }
                    },
            decreases n - i,
        {
            let slot = self.slots[i];
            if let Some(a) = slot.agent {
                if a.hostile {
                    let gen = if slot.gen < u64::MAX {
                        slot.gen + 1
                    } else {
                        slot.gen
                    };
                    self.slots.set(i, Slot { gen, agent: None });
                } else {
                    let mut na = a;
                    na.health.restore_full();
                    self.slots.set(i, Slot { gen: slot.gen, agent: Some(na) });
                }
            }
            i = i + 1;
        }
        self.projectiles.clear();
        self.events.clear();
    }

    /// Slot `j` holds a living agent of the wanted faction, within
    /// the optional squared range of `from`.
    pub open spec fn combat_candidate(
        self,
        from: Vec2I,
        want_hostile: bool,
        range_sq: Option<u128>,
        j: int,
    ) -> bool {
        &&& self.slot_live(j)
        &&& self.agent_at(j).hostile == want_hostile
        &&& match range_sq {
            Some(r) => dist_sq(from, self.agent_at(j).pos) <= r,
            None => true,
        }
    }

    /// Nearest-candidate search: the closest living agent of the
    /// wanted faction (within the optional range), ties broken in
    /// favour of the lowest slot index (first encountered).
    pub fn nearest_candidate(&self, from: Vec2I, want_hostile: bool, range_sq: Option<u128>) -> (r:
        Option<AgentId>)
        requires
            self.wf(),
            in_coord_range(from),
        ensures
            match r {
                None => forall|j: int| !self.combat_candidate(from, want_hostile, range_sq, j),
                Some(id) => {
                    &&& self.valid_id(id)
                    &&& id == self.id_at(id.idx as int)
                    &&& self.combat_candidate(from, want_hostile, range_sq, id.idx as int)
                    &&& forall|j: int|
                        self.combat_candidate(from, want_hostile, range_sq, j) ==> dist_sq(
                            from,
                            self.agent_at(j).pos,
                        ) >= dist_sq(from, self.agent_of(id).pos)
                    &&& forall|j: int|
                        self.combat_candidate(from, want_hostile, range_sq, j) && j < id.idx
                            ==> dist_sq(from, self.agent_at(j).pos) > dist_sq(
                            from,
                            self.agent_of(id).pos,
                        )
                },
            },
    {
        let n = self.slots.len();
        let mut best: Option<(usize, u128)> = None;
        let mut i: usize = 0;
        while i < n
            invariant
                self.wf(),
                in_coord_range(from),
                n == self.slots.len(),
                i <= n,
                match best {
                    None => forall|j: int|
                        j < i ==> !self.combat_candidate(from, want_hostile, range_sq, j),
                    Some((b, d)) => {
                        &&& b < i
                        &&& self.combat_candidate(from, want_hostile, range_sq, b as int)
                        &&& d == dist_sq(from, self.agent_at(b as int).pos)
                        &&& forall|j: int|
                            self.combat_candidate(from, want_hostile, range_sq, j) && j < i
                                ==> dist_sq(from, self.agent_at(j).pos) >= d
                        &&& forall|j: int|
                            self.combat_candidate(from, want_hostile, range_sq, j) && j < b
                                ==> dist_sq(from, self.agent_at(j).pos) > d
                    },
                },
            decreases n - i,
        {
            if let Some(a) = self.slots[i].agent {
                if a.health.val > 0 && a.hostile == want_hostile {
                    let d = distance_sq(from, a.pos);
                    let in_range = match range_sq {
                        Some(r) => d <= r,
                        None => true,
                    };
                    if in_range {
                        let better = match best {
                            Some((_, bd)) => d < bd,
                            None => true,
                        };
                        if better {
                            best = Some((i, d));
                        }
                    }
                }
            }
            i = i + 1;
        }
        match best {
            Some((b, _)) => Some(AgentId { idx: b, gen: self.slots[b].gen }),
            None => None,
        }
    }

    /// Slot `j` holds a living, damaged ally (same faction as
    /// `ally_hostile`) other than `self_idx`, within squared range
    /// `range_sq` of `from`.
    pub open spec fn heal_candidate(
        self,
        from: Vec2I,
        ally_hostile: bool,
        self_idx: int,
        range_sq: u128,
        j: int,
    ) -> bool {
        &&& self.slot_live(j)
        &&& j != self_idx
        &&& self.agent_at(j).hostile == ally_hostile
        &&& self.agent_at(j).health.val < self.agent_at(j).health.max
        &&& dist_sq(from, self.agent_at(j).pos) <= range_sq
    }

    /// The health fraction at slot `a` is strictly lower than at
    /// slot `b` (exact cross-multiplied comparison).
    pub open spec fn frac_lt(self, a: int, b: int) -> bool {
        (self.agent_at(a).health.val as int) * (self.agent_at(b).health.max as int) < (self.agent_at(
            b,
        ).health.val as int) * (self.agent_at(a).health.max as int)
    }

    /// Weakest-ally search for healers: among living, damaged allies
    /// within range, pick the lowest health fraction, ties broken in
    /// favour of the lowest slot index.
    pub fn weakest_ally(&self, from: Vec2I, ally_hostile: bool, self_idx: usize, range_sq: u128)
        -> (r: Option<AgentId>)
        requires
            self.wf(),
            in_coord_range(from),
        ensures
            match r {
                None => forall|j: int|
                    !self.heal_candidate(from, ally_hostile, self_idx as int, range_sq, j),
                Some(id) => {
                    &&& self.valid_id(id)
                    &&& id == self.id_at(id.idx as int)
                    &&& self.heal_candidate(
                        from,
                        ally_hostile,
                        self_idx as int,
                        range_sq,
                        id.idx as int,
                    )
                    &&& forall|j: int|
                        self.heal_candidate(from, ally_hostile, self_idx as int, range_sq, j)
                            ==> !self.frac_lt(j, id.idx as int)
                    &&& forall|j: int|
                        self.heal_candidate(from, ally_hostile, self_idx as int, range_sq, j) && j
                            < id.idx ==> self.frac_lt(id.idx as int, j)
                },
            },
    {
        let n = self.slots.len();
        let mut best: Option<usize> = None;
        let mut i: usize = 0;
        while i < n
            invariant
                self.wf(),
                in_coord_range(from),
                n == self.slots.len(),
                i <= n,
                match best {
                    None => forall|j: int|
                        j < i ==> !self.heal_candidate(
                            from,
                            ally_hostile,
                            self_idx as int,
                            range_sq,
                            j,
                        ),
                    Some(b) => {
                        &&& b < i
                        &&& self.heal_candidate(
                            from,
                            ally_hostile,
                            self_idx as int,
                            range_sq,
                            b as int,
                        )
                        &&& forall|j: int|
                            self.heal_candidate(from, ally_hostile, self_idx as int, range_sq, j)
                                && j < i ==> !self.frac_lt(j, b as int)
                        &&& forall|j: int|
                            self.heal_candidate(from, ally_hostile, self_idx as int, range_sq, j)
                                && j < b ==> self.frac_lt(b as int, j)
                    },
                },
            decreases n - i,
        {
            if i != self_idx {
                if let Some(a) = self.slots[i].agent {
                    if a.health.val > 0 && a.hostile == ally_hostile && a.health.val < a.health.max
                    {
                        let d = distance_sq(from, a.pos);
                        if d <= range_sq {
                            let better = match best {
                                Some(b) => {
                                    let ba = self.slots[b].agent.unwrap();
                                    a.health.more_damaged_than(&ba.health)
                                },
                                None => true,
                            };
                            if better {
                                proof {
                                    if best is Some {
                                        let b0 = best.unwrap() as int;
                                        assert forall|j: int|
                                            self.heal_candidate(
                                                from,
                                                ally_hostile,
                                                self_idx as int,
                                                range_sq,
                                                j,
                                            ) && j < i implies !self.frac_lt(j, i as int)
                                            && self.frac_lt(i as int, j) by {
                                            if j != b0 {
                                                assert(!self.frac_lt(j, b0));
                                                lemma_frac_trans(
                                                    self.agent_at(j).health.val as int,
                                                    self.agent_at(j).health.max as int,
                                                    self.agent_at(b0).health.val as int,
                                                    self.agent_at(b0).health.max as int,
                                                    self.agent_at(i as int).health.val as int,
                                                    self.agent_at(i as int).health.max as int,
                                                );
                                            }
                                        }
                                    }
                                }
                                best = Some(i);
                            }
                        }
                    }
                }
            }
            i = i + 1;
        }
        match best {
            Some(b) => Some(AgentId { idx: b, gen: self.slots[b].gen }),
            None => None,
        }
    }

    /// The latched target is still worth keeping: it resolves, is
    /// alive, and belongs to the wanted faction.
    pub open spec fn target_still_valid(self, current: Option<AgentId>, want_hostile: bool) -> bool {
        match current {
            Some(id) => self.live(id) && self.agent_of(id).hostile == want_hostile,
            None => false,
        }
    }

    /// What latching combat selection promises: the current target is
    /// kept while it stays alive and eligible; otherwise the result
    /// is a nearest candidate (or absent exactly when none exists),
    /// and any result is a living agent of the wanted faction.
    pub open spec fn selected_combat_ok(
        self,
        from: Vec2I,
        current: Option<AgentId>,
        want_hostile: bool,
        range_sq: Option<u128>,
        sel: Option<AgentId>,
    ) -> bool {
        &&& self.target_still_valid(current, want_hostile) ==> sel == current
        &&& !self.target_still_valid(current, want_hostile) ==> match sel {
            None => forall|j: int| !self.combat_candidate(from, want_hostile, range_sq, j),
            Some(id) => {
                &&& self.valid_id(id)
                &&& self.combat_candidate(from, want_hostile, range_sq, id.idx as int)
                &&& forall|j: int|
                    self.combat_candidate(from, want_hostile, range_sq, j) ==> dist_sq(
                        from,
                        self.agent_at(j).pos,
                    ) >= dist_sq(from, self.agent_of(id).pos)
            },
        }
        &&& sel is Some ==> self.live(sel.unwrap()) && self.agent_of(sel.unwrap()).hostile
            == want_hostile
    }

    /// The latched heal target is still worth keeping: it resolves,
    /// is alive, still damaged, of the healer's faction, and not the
    /// healer itself.
    pub open spec fn heal_target_still_valid(
        self,
        current: Option<AgentId>,
        ally_hostile: bool,
        self_idx: int,
    ) -> bool {
        match current {
            Some(id) => {
                &&& self.live(id)
                &&& id.idx != self_idx
                &&& self.agent_of(id).hostile == ally_hostile
                &&& self.agent_of(id).health.val < self.agent_of(id).health.max
            },
            None => false,
        }
    }

    /// What latching heal selection promises: the current patient is
    /// kept while alive and still damaged; otherwise the result is a
    /// weakest ally in range (or absent exactly when none exists),
    /// and any result is a living, damaged ally.
    pub open spec fn selected_heal_ok(
        self,
        from: Vec2I,
        current: Option<AgentId>,
        ally_hostile: bool,
        self_idx: int,
        range_sq: u128,
        sel: Option<AgentId>,
    ) -> bool {
        &&& self.heal_target_still_valid(current, ally_hostile, self_idx) ==> sel == current
        &&& !self.heal_target_still_valid(current, ally_hostile, self_idx) ==> match sel {
            None => forall|j: int|
                !self.heal_candidate(from, ally_hostile, self_idx, range_sq, j),
            Some(id) => {
                &&& self.valid_id(id)
                &&& self.heal_candidate(from, ally_hostile, self_idx, range_sq, id.idx as int)
                &&& forall|j: int|
                    self.heal_candidate(from, ally_hostile, self_idx, range_sq, j)
                        ==> !self.frac_lt(j, id.idx as int)
            },
        }
        &&& sel is Some ==> self.live(sel.unwrap()) && self.agent_of(sel.unwrap()).hostile
            == ally_hostile && self.agent_of(sel.unwrap()).health.val < self.agent_of(
            sel.unwrap(),
        ).health.max && sel.unwrap().idx != self_idx
    }

    /// Latching target selection: keep the current target while it
    /// stays alive and eligible (no flicker), otherwise fall back to
    /// the nearest-candidate search.
    pub fn select_combat_target(
        &self,
        current: Option<AgentId>,
        from: Vec2I,
        want_hostile: bool,
        range_sq: Option<u128>,
    ) -> (r: Option<AgentId>)
        requires
            self.wf(),
            in_coord_range(from),
        ensures
            self.selected_combat_ok(from, current, want_hostile, range_sq, r),
    {
        if let Some(id) = current {
            if let Some(a) = self.get_agent(id) {
                if a.health.val > 0 && a.hostile == want_hostile {
                    return Some(id);
                }
            }
        }
        self.nearest_candidate(from, want_hostile, range_sq)
    }

    /// Latching heal-target selection: keep the current patient while
    /// it stays alive and damaged, otherwise fall back to the
    /// weakest-ally search.
    pub fn select_heal_target(
        &self,
        current: Option<AgentId>,
        from: Vec2I,
        ally_hostile: bool,
        self_idx: usize,
        range_sq: u128,
    ) -> (r: Option<AgentId>)
        requires
            self.wf(),
            in_coord_range(from),
        ensures
            self.selected_heal_ok(from, current, ally_hostile, self_idx as int, range_sq, r),
    {
        if let Some(id) = current {
            if id.idx != self_idx {
                if let Some(a) = self.get_agent(id) {
                    if a.health.val > 0 && a.hostile == ally_hostile && a.health.val
                        < a.health.max {
                        return Some(id);
                    }
                }
            }
        }
        self.weakest_ally(from, ally_hostile, self_idx, range_sq)
    }
}

} // verus!
