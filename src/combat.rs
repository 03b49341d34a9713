//! Targeting and attack resolution.
//!
//! Targets are acquired over the start-of-phase snapshot and committed
//! together; attacks are then planned over the snapshot and applied.
use vstd::prelude::*;
use crate::entities::{Entity, EntityKind, ProjectileData, TargetType};
use crate::geometry::dist_sq;
use crate::state::{EntityId, GameState, index_of, lemma_index_of_unique, store_wf};

verus! {

/// Speed of a launched projectile (15 tiles per second).
pub const PROJECTILE_SPEED: u32 = 300;

/// Whether `e` matches the filter `t`. Nothing is airborne, so `Air`
/// matches nothing; `Buildings` matches towers only.
pub open spec fn spec_valid_target_type(e: Entity, t: TargetType) -> bool {
    match t {
        TargetType::Ground => true,
        TargetType::Air => false,
        TargetType::Both => true,
        TargetType::Buildings => e.kind is Tower,
    }
}

/// Whether `e` matches the target-type filter `t`.
pub fn is_valid_target_type(e: &Entity, t: TargetType) -> (r: bool)
    ensures
        r == spec_valid_target_type(*e, t),
{
    match t {
        TargetType::Ground => true,
        TargetType::Air => false,
        TargetType::Both => true,
        TargetType::Buildings => match e.kind {
            EntityKind::Tower(_) => true,
            _ => false,
        },
    }
}

/// Entry `j` may be picked as a target by the attacker at entry `i`: another
/// living entity of the other side, matching the attacker's filter.
pub open spec fn is_candidate(s: Seq<(EntityId, Entity)>, i: int, j: int) -> bool {
    let a = s[i].1;
    let e = s[j].1;
    &&& 0 <= j < s.len()
    &&& j != i
    &&& e.owner != a.owner
    &&& e.hp > 0
    &&& match a.spec_target_type() {
        Some(t) => spec_valid_target_type(e, t),
        None => true,
    }
}

/// Entry `j` is the nearest candidate of the attacker at entry `i`; of
/// candidates at equal distance, the one with the lowest identifier.
pub open spec fn is_nearest(s: Seq<(EntityId, Entity)>, i: int, j: int) -> bool {
    &&& is_candidate(s, i, j)
    &&& forall|k: int|
        #![trigger is_candidate(s, i, k)]
        is_candidate(s, i, k) ==> dist_sq(s[i].1.position, s[j].1.position) < dist_sq(
            s[i].1.position,
            s[k].1.position,
        ) || (dist_sq(s[i].1.position, s[j].1.position) == dist_sq(
            s[i].1.position,
            s[k].1.position,
        ) && j <= k)
}

/// The attacker at entry `i` still holds a valid target: one that is in the
/// store, alive and of the other side.
pub open spec fn holds_valid_target(s: Seq<(EntityId, Entity)>, i: int) -> bool {
    match s[i].1.target {
        Some(t) => match index_of(s, t) {
            Some(j) => s[j].1.hp > 0 && s[j].1.owner != s[i].1.owner,
            None => false,
        },
        None => false,
    }
}

/// `t` is what the attacker at entry `i` targets after acquisition: its
/// current target if still valid, else the nearest candidate, else nothing.
pub open spec fn acquired(s: Seq<(EntityId, Entity)>, i: int, t: Option<u32>) -> bool {
    if holds_valid_target(s, i) {
        t == s[i].1.target
    } else {
        match t {
            Some(id) => exists|j: int| is_nearest(s, i, j) && s[j].0.0 == id,
            None => forall|j: int| !is_candidate(s, i, j),
        }
    }
}

/// Whether the entity `target_id` is a valid target for `attacker_id`: both
/// are in the store, and the target is alive and of the other side.
pub fn is_valid_target(state: &GameState, attacker_id: EntityId, target_id: EntityId) -> (r: bool)
    requires
        state.wf(),
    ensures
        r == (index_of(state.entities@, attacker_id.0) is Some && index_of(
            state.entities@,
            target_id.0,
        ) is Some && state.entities@[index_of(state.entities@, target_id.0)->0].1.hp > 0
            && state.entities@[index_of(state.entities@, target_id.0)->0].1.owner
            != state.entities@[index_of(state.entities@, attacker_id.0)->0].1.owner),
{
    let a = match state.get_entity(attacker_id) {
        Some(a) => a,
        None => return false,
    };
    let t = match state.get_entity(target_id) {
        Some(t) => t,
        None => return false,
    };
    t.is_alive() && t.owner != a.owner
}

/// The nearest candidate target of the attacker at entry `i`, regardless of
/// range.
pub fn find_target(state: &GameState, i: usize) -> (r: Option<usize>)
    requires
        state.wf(),
        i < state.entities@.len(),
    ensures
        r is Some ==> is_nearest(state.entities@, i as int, r->0 as int),
        r is None ==> forall|j: int| !is_candidate(state.entities@, i as int, j),
{
    let ghost s = state.entities@;
    let attacker = &state.entities[i].1;
    let filter = attacker.target_type();
    let mut best: Option<(usize, u128)> = None;
    let mut k: usize = 0;
    while k < state.entities.len()
        invariant
            s == state.entities@,
            k <= s.len(),
            i < s.len(),
            *attacker == s[i as int].1,
            filter == attacker.spec_target_type(),
            best is None ==> forall|j: int| 0 <= j < k ==> !is_candidate(s, i as int, j),
            best is Some ==> {
                let (b, d) = best->0;
                &&& b < k
                &&& is_candidate(s, i as int, b as int)
                &&& d == dist_sq(s[i as int].1.position, s[b as int].1.position)
                &&& forall|j: int|
                    #![trigger is_candidate(s, i as int, j)]
                    0 <= j < k && is_candidate(s, i as int, j) ==> d < dist_sq(
                        s[i as int].1.position,
                        s[j].1.position,
                    ) || (d == dist_sq(s[i as int].1.position, s[j].1.position) && b <= j)
            },
        decreases s.len() - k,
    {
        let e = &state.entities[k].1;
        let filter_ok = match filter {
            Some(t) => is_valid_target_type(e, t),
            None => true,
        };
        if k != i && e.owner != attacker.owner && e.is_alive() && filter_ok {
            let d = attacker.position.distance_sq_to(&e.position);
            match best {
                None => {
                    best = Some((k, d));
                },
                Some((_, bd)) => {
                    if d < bd {
                        best = Some((k, d));
                    }
                },
            }
        }
        k = k + 1;
    }
    match best {
        Some((b, _)) => Some(b),
        None => None,
    }
}

/// Counts every attack cooldown down by one tick.
pub fn cool_down(state: &mut GameState)
    requires
        old(state).wf(),
    ensures
        final(state).wf(),
        final(state).entities@.len() == old(state).entities@.len(),
        forall|i: int|
            0 <= i < old(state).entities@.len() ==> (#[trigger] final(state).entities@[i]) == (
            old(state).entities@[i].0,
            Entity {
                attack_cooldown: if old(state).entities@[i].1.attack_cooldown > 0 {
                    (old(state).entities@[i].1.attack_cooldown - 1) as u32
                } else {
                    0
                },
                ..old(state).entities@[i].1
            },
        ),
        final(state).next_entity_id == old(state).next_entity_id,
        final(state).player1 == old(state).player1,
        final(state).player2 == old(state).player2,
        final(state).rng == old(state).rng,
        final(state).cards@ == old(state).cards@,
        final(state).tick == old(state).tick,
        final(state).match_time == old(state).match_time,
        final(state).max_match_time == old(state).max_match_time,
{
    let n = state.entities.len();
    let mut i: usize = 0;
    while i < n
        invariant
            n == old(state).entities@.len(),
            n == state.entities@.len(),
            i <= n,
            state.wf(),
            forall|k: int|
                0 <= k < n ==> (#[trigger] state.entities@[k]) == if k < i {
                    (
                        old(state).entities@[k].0,
                        Entity {
                            attack_cooldown: if old(state).entities@[k].1.attack_cooldown > 0 {
                                (old(state).entities@[k].1.attack_cooldown - 1) as u32
                            } else {
                                0
                            },
                            ..old(state).entities@[k].1
                        },
                    )
                } else {
                    old(state).entities@[k]
                },
            state.next_entity_id == old(state).next_entity_id,
            state.player1 == old(state).player1,
            state.player2 == old(state).player2,
            state.rng == old(state).rng,
            state.cards@ == old(state).cards@,
            state.tick == old(state).tick,
            state.match_time == old(state).match_time,
            state.max_match_time == old(state).max_match_time,
        decreases n - i,
    {
        let (id, mut e) = state.entities[i];
        if e.attack_cooldown > 0 {
            e.attack_cooldown = e.attack_cooldown - 1;
        }
        state.entities.set(i, (id, e));
        proof {
            let s = state.entities@;
            assert forall|a: int| 0 <= a < s.len() implies (#[trigger] s[a]).0.0 < state.next_entity_id && s[a].1.wf() by {
                assert(s[a].0 == old(state).entities@[a].0);
            }
            assert forall|a: int, b: int| 0 <= a < b < s.len() implies s[a].0.0 < s[b].0.0 by {
                assert(s[a].0 == old(state).entities@[a].0);
                assert(s[b].0 == old(state).entities@[b].0);
            }
        }
        i = i + 1;
    }
}

/// Every entry keeps its identifier and all but the fields named by the
/// caller's own clauses; used to frame the passes of this phase.
pub open spec fn same_but_target(a: (EntityId, Entity), b: (EntityId, Entity)) -> bool {
    a.0 == b.0 && b.1 == (Entity { target: b.1.target, ..a.1 })
}

/// Acquires a target for every tower and troop over the start-of-phase
/// snapshot, then commits all of them.
pub fn acquire_targets(state: &mut GameState)
    requires
        old(state).wf(),
    ensures
        final(state).wf(),
        final(state).entities@.len() == old(state).entities@.len(),
        forall|i: int|
            #![trigger final(state).entities@[i]]
            0 <= i < old(state).entities@.len() ==> same_but_target(
                old(state).entities@[i],
                final(state).entities@[i],
            ) && if old(state).entities@[i].1.spec_can_attack() {
                acquired(old(state).entities@, i, final(state).entities@[i].1.target)
            } else {
                final(state).entities@[i].1.target == old(state).entities@[i].1.target
            },
        final(state).next_entity_id == old(state).next_entity_id,
        final(state).player1 == old(state).player1,
        final(state).player2 == old(state).player2,
        final(state).rng == old(state).rng,
        final(state).cards@ == old(state).cards@,
        final(state).tick == old(state).tick,
        final(state).match_time == old(state).match_time,
        final(state).max_match_time == old(state).max_match_time,
{
    let ghost s = state.entities@;
    let n = state.entities.len();
    let mut chosen: Vec<Option<u32>> = Vec::new();
    let mut i: usize = 0;
    while i < n
        invariant
            s == state.entities@,
            n == s.len(),
            state.wf(),
            i <= n,
            chosen@.len() == i,
            forall|k: int|
                #![trigger chosen@[k]]
                0 <= k < i ==> if s[k].1.spec_can_attack() {
                    acquired(s, k, chosen@[k])
                } else {
                    chosen@[k] == s[k].1.target
                },
        decreases n - i,
    {
        let e = &state.entities[i].1;
        let t: Option<u32> = if !e.can_attack() {
            e.target
        } else {
            let keep = match e.target {
                Some(t) => match state.find_index(t) {
                    Some(j) => state.entities[j].1.is_alive() && state.entities[j].1.owner != e.owner,
                    None => false,
                },
                None => false,
            };
            if keep {
                e.target
            } else {
                match find_target(state, i) {
                    Some(j) => Some(state.entities[j].0.0),
                    None => None,
                }
            }
        };
        chosen.push(t);
        i = i + 1;
    }
    let mut i: usize = 0;
    while i < n
        invariant
            n == s.len(),
            n == state.entities@.len(),
            chosen@.len() == n,
            i <= n,
            state.wf(),
            forall|k: int|
                #![trigger state.entities@[k]]
                0 <= k < n ==> same_but_target(s[k], state.entities@[k]) && state.entities@[k].1.target
                    == if k < i {
                    chosen@[k]
                } else {
                    s[k].1.target
                },
            forall|k: int|
                #![trigger chosen@[k]]
                0 <= k < n ==> if s[k].1.spec_can_attack() {
                    acquired(s, k, chosen@[k])
                } else {
                    chosen@[k] == s[k].1.target
                },
            state.next_entity_id == old(state).next_entity_id,
            state.player1 == old(state).player1,
            state.player2 == old(state).player2,
            state.rng == old(state).rng,
            state.cards@ == old(state).cards@,
            state.tick == old(state).tick,
            state.match_time == old(state).match_time,
            state.max_match_time == old(state).max_match_time,
        decreases n - i,
    {
        let (id, mut e) = state.entities[i];
        e.target = chosen[i];
        state.entities.set(i, (id, e));
        proof {
            let t = state.entities@;
            assert forall|a: int| 0 <= a < t.len() implies (#[trigger] t[a]).0.0 < state.next_entity_id && t[a].1.wf() by {
                assert(same_but_target(s[a], t[a]));
            }
            assert forall|a: int, b: int| 0 <= a < b < t.len() implies t[a].0.0 < t[b].0.0 by {
                assert(same_but_target(s[a], t[a]));
                assert(same_but_target(s[b], t[b]));
            }
        }
        i = i + 1;
    }
}

/// An attack to resolve: entry `attacker` strikes entry `target`.
#[derive(Debug, Clone, Copy, PartialEq, Eq, Structural)]
pub struct Attack {
    pub attacker: usize,
    pub target: usize,
    pub damage: u32,
    /// The attacker's cooldown after the attack.
    pub cooldown: u32,
    /// Launches a projectile rather than striking at once.
    pub ranged: bool,
}

/// `a` is a legitimate attack in the store `s`: a ready tower or troop whose
/// assigned target is within its attack range.
pub open spec fn attack_ok(s: Seq<(EntityId, Entity)>, a: Attack) -> bool {
    let e = s[a.attacker as int].1;
    let t = s[a.target as int].1;
    &&& a.attacker < s.len()
    &&& a.target < s.len()
    &&& e.spec_can_attack()
    &&& e.attack_cooldown == 0
    &&& e.target == Some(s[a.target as int].0.0)
    &&& dist_sq(e.position, t.position) <= e.spec_attack_range() * e.spec_attack_range()
    &&& a.damage == e.spec_damage()
    &&& a.cooldown == e.spec_attack_speed()
    &&& a.ranged == e.spec_is_ranged()
}

/// The tower or troop at entry `i` is ready and its assigned target, which is
/// in the store, lies within its attack range.
pub open spec fn ready_in_range(s: Seq<(EntityId, Entity)>, i: int) -> bool {
    let e = s[i].1;
    &&& e.spec_can_attack()
    &&& e.attack_cooldown == 0
    &&& e.target is Some
    &&& index_of(s, e.target->0) is Some
    &&& dist_sq(e.position, s[index_of(s, e.target->0)->0].1.position) <= e.spec_attack_range()
        * e.spec_attack_range()
}

/// Some attack of `plan` has the entry `i` as attacker.
pub open spec fn planned(plan: Seq<Attack>, i: int) -> bool {
    exists|k: int| 0 <= k < plan.len() && (#[trigger] plan[k]).attacker == i
}

/// The attack the entry `i` makes when it is ready and in range.
pub open spec fn attack_of(s: Seq<(EntityId, Entity)>, i: int) -> Attack {
    let e = s[i].1;
    Attack {
        attacker: i as usize,
        target: index_of(s, e.target->0)->0 as usize,
        damage: e.spec_damage(),
        cooldown: e.spec_attack_speed(),
        ranged: e.spec_is_ranged(),
    }
}

/// The attacks of the first `n` entries of `s`, in store order.
pub open spec fn planned_attacks(s: Seq<(EntityId, Entity)>, n: int) -> Seq<Attack>
    decreases n,
{
    if n <= 0 {
        Seq::empty()
    } else if ready_in_range(s, n - 1) {
        planned_attacks(s, n - 1).push(attack_of(s, n - 1))
    } else {
        planned_attacks(s, n - 1)
    }
}

/// The attacks of this tick: every ready tower or troop whose target is in
/// range, in store order.
pub fn plan_attacks(state: &GameState) -> (r: Vec<Attack>)
    requires
        state.wf(),
    ensures
        r@ == planned_attacks(state.entities@, state.entities@.len() as int),
        forall|k: int| 0 <= k < r@.len() ==> attack_ok(state.entities@, #[trigger] r@[k]),
        forall|k: int, m: int| 0 <= k < m < r@.len() ==> r@[k].attacker < r@[m].attacker,
        forall|i: int|
            0 <= i < state.entities@.len() && #[trigger] ready_in_range(state.entities@, i)
                ==> #[trigger] planned(r@, i),
{
    let ghost s = state.entities@;
    let n = state.entities.len();
    let mut out: Vec<Attack> = Vec::new();
    let mut i: usize = 0;
    while i < n
        invariant
            s == state.entities@,
            n == s.len(),
            state.wf(),
            i <= n,
            forall|k: int| 0 <= k < out@.len() ==> attack_ok(s, #[trigger] out@[k]),
            forall|k: int| 0 <= k < out@.len() ==> (#[trigger] out@[k]).attacker < i,
            forall|k: int, m: int| 0 <= k < m < out@.len() ==> out@[k].attacker < out@[m].attacker,
            forall|a: int| 0 <= a < i && #[trigger] ready_in_range(s, a) ==> planned(out@, a),
            out@ == planned_attacks(s, i as int),
        decreases n - i,
    {
        let ghost before = out@;
        let e = &state.entities[i].1;
        if e.can_attack() && e.attack_cooldown == 0 {
            match e.target {
                Some(t) => match state.find_index(t) {
                    Some(j) => {
                        if e.position.within_range(&state.entities[j].1.position, e.attack_range()) {
                            out.push(
                                Attack {
                                    attacker: i,
                                    target: j,
                                    damage: e.damage(),
                                    cooldown: e.attack_speed(),
                                    ranged: e.is_ranged(),
                                },
                            );
                            assert(out@[before.len() as int].attacker == i);
                        }
                    },
                    None => {},
                },
                None => {},
            }
        }
        proof {
            assert forall|a: int| 0 <= a < i + 1 && #[trigger] ready_in_range(s, a) implies planned(out@, a) by {
                if a < i {
                    assert(planned(before, a));
                    let k = choose|k: int| 0 <= k < before.len() && (#[trigger] before[k]).attacker == a;
                    assert(out@[k] == before[k]);
                }
            }
        }
        i = i + 1;
    }
    out
}

/// `b` is `a` with at most its health and cooldown changed.
pub open spec fn same_frame(a: (EntityId, Entity), b: (EntityId, Entity)) -> bool {
    a.0 == b.0 && b.1 == (Entity { hp: b.1.hp, attack_cooldown: b.1.attack_cooldown, ..a.1 })
}

/// The projectile that the ranged attack `a` launches in the store `s`.
pub open spec fn launched(s: Seq<(EntityId, Entity)>, a: Attack) -> Entity {
    let e = s[a.attacker as int].1;
    Entity {
        owner: e.owner,
        position: e.position,
        velocity: crate::geometry::Velocity { x: 0, y: 0 },
        hp: crate::entities::EFFECT_HP,
        max_hp: crate::entities::EFFECT_HP,
        kind: EntityKind::Projectile(
            ProjectileData {
                damage: a.damage,
                speed: PROJECTILE_SPEED,
                target_id: Some(s[a.target as int].0.0),
            },
        ),
        attack_cooldown: 0,
        target: None,
    }
}

/// Some melee attack of `plan` strikes the entry `i`.
pub open spec fn struck_by_melee(plan: Seq<Attack>, i: int) -> bool {
    exists|k: int| 0 <= k < plan.len() && !(#[trigger] plan[k]).ranged && plan[k].target == i
}

/// `e` is the projectile of some ranged attack of `plan` in the store `s`.
pub open spec fn launched_by(s: Seq<(EntityId, Entity)>, plan: Seq<Attack>, e: Entity) -> bool {
    exists|k: int| 0 <= k < plan.len() && (#[trigger] plan[k]).ranged && e == launched(s, plan[k])
}

/// The store and next identifier after the attack `a`, planned over `s0`, is
/// resolved on `st`: a ranged attack appends its projectile under the next
/// identifier (while one remains), a melee attack damages its target; the
/// attacker's cooldown restarts.
pub open spec fn strike_one(st: (Seq<(EntityId, Entity)>, u32), s0: Seq<(EntityId, Entity)>, a: Attack) -> (Seq<(EntityId, Entity)>, u32) {
    let es = st.0;
    let next = st.1;
    let mid: (Seq<(EntityId, Entity)>, u32) = if a.ranged {
        if next < u32::MAX {
            (es.push((EntityId(next), launched(s0, a))), (next + 1) as u32)
        } else {
            (es, next)
        }
    } else {
        let t = es[a.target as int];
        (
            es.update(
                a.target as int,
                (t.0, Entity { hp: if t.1.hp >= a.damage { (t.1.hp - a.damage) as u32 } else { 0 }, ..t.1 }),
            ),
            next,
        )
    };
    let at = mid.0[a.attacker as int];
    (mid.0.update(a.attacker as int, (at.0, Entity { attack_cooldown: a.cooldown, ..at.1 })), mid.1)
}

/// The store and next identifier after resolving `plan`, planned over `s0`,
/// in order, starting from `s0` and `next0`.
pub open spec fn strikes(s0: Seq<(EntityId, Entity)>, next0: u32, plan: Seq<Attack>) -> (Seq<(EntityId, Entity)>, u32)
    decreases plan.len(),
{
    if plan.len() == 0 {
        (s0, next0)
    } else {
        strike_one(strikes(s0, next0, plan.drop_last()), s0, plan.last())
    }
}

/// Resolves `attacks`: a melee attack damages its target at once, a ranged
/// one launches a projectile locked on its target; either way the attacker's
/// cooldown restarts.
pub fn apply_attacks(state: &mut GameState, attacks: &Vec<Attack>)
    requires
        old(state).wf(),
        forall|k: int| 0 <= k < attacks@.len() ==> attack_ok(old(state).entities@, #[trigger] attacks@[k]),
        forall|k: int, m: int| 0 <= k < m < attacks@.len() ==> attacks@[k].attacker < attacks@[m].attacker,
    ensures
        final(state).wf(),
        (final(state).entities@, final(state).next_entity_id) == strikes(
            old(state).entities@,
            old(state).next_entity_id,
            attacks@,
        ),
        final(state).entities@.len() >= old(state).entities@.len(),
        forall|q: int|
            0 <= q < attacks@.len() ==> final(state).entities@[(#[trigger] attacks@[q]).attacker as int].1.attack_cooldown
                == attacks@[q].cooldown,
        forall|i: int|
            #![trigger final(state).entities@[i]]
            0 <= i < old(state).entities@.len() ==> same_frame(old(state).entities@[i], final(state).entities@[i])
                && final(state).entities@[i].1.hp <= old(state).entities@[i].1.hp
                && (final(state).entities@[i].1.hp < old(state).entities@[i].1.hp ==> struck_by_melee(
                attacks@,
                i,
            )) && (final(state).entities@[i].1.attack_cooldown != old(state).entities@[i].1.attack_cooldown
                ==> planned(attacks@, i)),
        forall|m: int|
            #![trigger final(state).entities@[m]]
            old(state).entities@.len() <= m < final(state).entities@.len() ==> launched_by(
                old(state).entities@,
                attacks@,
                final(state).entities@[m].1,
            ),
        final(state).player1 == old(state).player1,
        final(state).player2 == old(state).player2,
        final(state).rng == old(state).rng,
        final(state).cards@ == old(state).cards@,
        final(state).tick == old(state).tick,
        final(state).match_time == old(state).match_time,
        final(state).max_match_time == old(state).max_match_time,
{
    let ghost s = state.entities@;
    let n = state.entities.len();
    let mut k: usize = 0;
    assert(attacks@.take(0) =~= Seq::<Attack>::empty());
    while k < attacks.len()
        invariant
            s == old(state).entities@,
            n == s.len(),
            state.wf(),
            k <= attacks@.len(),
            (state.entities@, state.next_entity_id) == strikes(s, old(state).next_entity_id, attacks@.take(k as int)),
            forall|q: int|
                0 <= q < k ==> state.entities@[(#[trigger] attacks@[q]).attacker as int].1.attack_cooldown
                    == attacks@[q].cooldown,
            state.entities@.len() >= n,
            forall|q: int| 0 <= q < attacks@.len() ==> attack_ok(s, #[trigger] attacks@[q]),
            forall|q: int, m: int| 0 <= q < m < attacks@.len() ==> attacks@[q].attacker < attacks@[m].attacker,
            forall|i: int|
                #![trigger state.entities@[i]]
                0 <= i < n ==> same_frame(s[i], state.entities@[i]) && state.entities@[i].1.hp <= s[i].1.hp
                    && (state.entities@[i].1.hp < s[i].1.hp ==> struck_by_melee(attacks@.take(k as int), i))
                    && (state.entities@[i].1.attack_cooldown != s[i].1.attack_cooldown ==> planned(
                    attacks@.take(k as int),
                    i,
                ))
                    && (forall|q: int| k <= q < attacks@.len() && (#[trigger] attacks@[q]).attacker == i
                    ==> state.entities@[i].1.attack_cooldown == s[i].1.attack_cooldown),
            forall|m: int|
                #![trigger state.entities@[m]]
                n <= m < state.entities@.len() ==> launched_by(s, attacks@.take(k as int), state.entities@[m].1),
            state.player1 == old(state).player1,
            state.player2 == old(state).player2,
            state.rng == old(state).rng,
            state.cards@ == old(state).cards@,
            state.tick == old(state).tick,
            state.match_time == old(state).match_time,
            state.max_match_time == old(state).max_match_time,
        decreases attacks@.len() - k,
    {
        let a = attacks[k];
        let ghost before = state.entities@;
        if a.ranged {
            let src = state.entities[a.attacker].1;
            let tid = state.entities[a.target].0.0;
            let p = crate::entities::Entity::new(
                src.owner,
                src.position,
                EntityKind::Projectile(
                    ProjectileData { damage: a.damage, speed: PROJECTILE_SPEED, target_id: Some(tid) },
                ),
            );
            let _ = state.add_entity(p);
            proof {
                let t1 = attacks@.take(k + 1);
                assert forall|m: int|
                    #![trigger state.entities@[m]]
                    n <= m < state.entities@.len() implies launched_by(s, t1, state.entities@[m].1) by {
                    if m < before.len() {
                        assert(state.entities@[m] == before[m]);
                        let q = choose|q: int| 0 <= q < k && (#[trigger] attacks@.take(k as int)[q]).ranged
                            && before[m].1 == launched(s, attacks@.take(k as int)[q]);
                        assert(t1[q] == attacks@.take(k as int)[q]);
                    } else {
                        assert(state.entities@[m].1 == launched(s, attacks@[k as int]));
                        assert(t1[k as int] == attacks@[k as int]);
                    }
                }
                assert forall|i: int| #![trigger state.entities@[i]] 0 <= i < n implies state.entities@[i] == before[i] by {}
            }
        } else {
            let (id, mut t) = state.entities[a.target];
            t.take_damage(a.damage);
            state.entities.set(a.target, (id, t));
            proof {
                let cur = state.entities@;
                assert forall|x: int| 0 <= x < cur.len() implies (#[trigger] cur[x]).0.0 < state.next_entity_id && cur[x].1.wf() by {
                    if x != a.target {
                        assert(cur[x] == before[x]);
                    }
                }
                assert forall|x: int, y: int| 0 <= x < y < cur.len() implies cur[x].0.0 < cur[y].0.0 by {
                    assert(cur[x].0 == before[x].0);
                    assert(cur[y].0 == before[y].0);
                }
                assert forall|m: int| #![trigger cur[m]] n <= m < cur.len() implies cur[m] == before[m] by {}
            }
        }
        let ghost mid = state.entities@;
        let (id, mut e) = state.entities[a.attacker];
        e.attack_cooldown = a.cooldown;
        state.entities.set(a.attacker, (id, e));
        proof {
            let cur = state.entities@;
            assert forall|x: int| 0 <= x < cur.len() implies (#[trigger] cur[x]).0.0 < state.next_entity_id && cur[x].1.wf() by {
                if x != a.attacker {
                    assert(cur[x] == mid[x]);
                }
            }
            assert forall|x: int, y: int| 0 <= x < y < cur.len() implies cur[x].0.0 < cur[y].0.0 by {
                assert(cur[x].0 == mid[x].0);
                assert(cur[y].0 == mid[y].0);
            }
            let t0 = attacks@.take(k as int);
            let t1 = attacks@.take(k + 1);
            assert forall|i: int| #![trigger t0[i]] 0 <= i < k implies t1[i] == t0[i] by {}
            assert(t1[k as int] == attacks@[k as int]);
            assert forall|i: int| struck_by_melee(t0, i) implies struck_by_melee(t1, i) by {
                let q = choose|q: int| 0 <= q < t0.len() && !(#[trigger] t0[q]).ranged && t0[q].target == i;
                assert(t1[q] == t0[q]);
            }
            assert forall|i: int| planned(t0, i) implies planned(t1, i) by {
                let q = choose|q: int| 0 <= q < t0.len() && (#[trigger] t0[q]).attacker == i;
                assert(t1[q] == t0[q]);
            }
            assert forall|e: Entity| launched_by(s, t0, e) implies launched_by(s, t1, e) by {
                let q = choose|q: int| 0 <= q < t0.len() && (#[trigger] t0[q]).ranged && e == launched(s, t0[q]);
                assert(t1[q] == t0[q]);
            }
            if !a.ranged {
                assert(struck_by_melee(t1, a.target as int));
            }
            assert(planned(t1, a.attacker as int));
            assert forall|i: int|
                #![trigger cur[i]]
                0 <= i < n implies same_frame(s[i], cur[i]) && cur[i].1.hp <= s[i].1.hp
                    && (cur[i].1.hp < s[i].1.hp ==> struck_by_melee(t1, i))
                    && (cur[i].1.attack_cooldown != s[i].1.attack_cooldown ==> planned(t1, i))
                    && (forall|q: int| k + 1 <= q < attacks@.len() && (#[trigger] attacks@[q]).attacker == i
                    ==> cur[i].1.attack_cooldown == s[i].1.attack_cooldown) by {
                if i != a.attacker {
                    assert(cur[i] == mid[i]);
                    if i != a.target || a.ranged {
                        assert(mid[i] == before[i]);
                    }
                    assert forall|q: int| k + 1 <= q < attacks@.len() && (#[trigger] attacks@[q]).attacker == i
                    implies cur[i].1.attack_cooldown == s[i].1.attack_cooldown by {
                        assert(k as int <= q);
                    }
                } else {
                    assert(mid[i].1.hp == cur[i].1.hp);
                    if i != a.target || a.ranged {
                        assert(mid[i] == before[i]);
                    }
                    assert(attacks@[k as int].attacker == i);
                }
            }
            assert forall|m: int| #![trigger cur[m]] n <= m < cur.len() implies cur[m] == mid[m] by {}
            assert(t1.drop_last() =~= t0);
            assert(t1.last() == a);
            assert(strikes(s, old(state).next_entity_id, t1) == strike_one(strikes(s, old(state).next_entity_id, t0), s, a));
            assert(cur =~= strike_one(strikes(s, old(state).next_entity_id, t0), s, a).0);
        }
        k = k + 1;
    }
    assert(attacks@.take(attacks@.len() as int) =~= attacks@);
}

/// In the store `s`, the entry `a` is a melee tower or troop whose target is
/// the entry `i`, and `i` lies within `a`'s attack range.
pub open spec fn strikes_in_range(s: Seq<(EntityId, Entity)>, a: int, i: int) -> bool {
    &&& 0 <= a < s.len()
    &&& s[a].1.spec_can_attack()
    &&& s[a].1.target == Some(s[i].0.0)
    &&& dist_sq(s[a].1.position, s[i].1.position) <= s[a].1.spec_attack_range()
        * s[a].1.spec_attack_range()
}

/// The store with every cooldown one tick further down.
pub open spec fn cooled(s: Seq<(EntityId, Entity)>) -> Seq<(EntityId, Entity)> {
    Seq::new(
        s.len(),
        |i: int|
            (
                s[i].0,
                Entity {
                    attack_cooldown: if s[i].1.attack_cooldown > 0 {
                        (s[i].1.attack_cooldown - 1) as u32
                    } else {
                        0
                    },
                    ..s[i].1
                },
            ),
    )
}

/// The target the entry `i` holds after acquisition.
pub open spec fn acquire_result(s: Seq<(EntityId, Entity)>, i: int) -> Option<u32> {
    if s[i].1.spec_can_attack() {
        choose|t: Option<u32>| acquired(s, i, t)
    } else {
        s[i].1.target
    }
}

/// The store after every tower and troop has acquired its target.
pub open spec fn retargeted(s: Seq<(EntityId, Entity)>) -> Seq<(EntityId, Entity)> {
    Seq::new(s.len(), |i: int| (s[i].0, Entity { target: acquire_result(s, i), ..s[i].1 }))
}

/// The store and next identifier after the combat phase on `s`.
pub open spec fn combat_result(s: Seq<(EntityId, Entity)>, next: u32) -> (Seq<(EntityId, Entity)>, u32) {
    let a = retargeted(cooled(s));
    strikes(a, next, planned_attacks(a, a.len() as int))
}

/// Combat leaves an entity's identifier, side, place, motion, kind and
/// maximum health alone, and never raises its health.
pub open spec fn kept_in_combat(o: (EntityId, Entity), f: (EntityId, Entity)) -> bool {
    &&& f.0 == o.0
    &&& f.1.owner == o.1.owner
    &&& f.1.position == o.1.position
    &&& f.1.velocity == o.1.velocity
    &&& f.1.kind == o.1.kind
    &&& f.1.max_hp == o.1.max_hp
    &&& f.1.hp <= o.1.hp
}

/// In the store `s`, the entry `a` is a melee attacker that holds the entry
/// `i` as target within range.
pub open spec fn melee_source(s: Seq<(EntityId, Entity)>, a: int, i: int) -> bool {
    strikes_in_range(s, a, i) && !s[a].1.spec_is_ranged()
}

/// In the store `s`, the entry `m` is a projectile launched by the ranged
/// attacker `a` at its target, the entry `j`, which is within range.
pub open spec fn launch_source(s: Seq<(EntityId, Entity)>, m: int, a: int, j: int) -> bool {
    &&& strikes_in_range(s, a, j)
    &&& s[a].1.spec_is_ranged()
    &&& s[m].1.kind == EntityKind::Projectile(
        ProjectileData {
            damage: s[a].1.spec_damage(),
            speed: PROJECTILE_SPEED,
            target_id: Some(s[j].0.0),
        },
    )
    &&& s[m].1.position == s[a].1.position
}

/// The entry `m` of `s` is a projectile launched within range at one of the
/// first `n` entries, by an attacker that was ready in the store `r` the
/// attacks were planned over.
pub open spec fn launched_in_range(r: Seq<(EntityId, Entity)>, s: Seq<(EntityId, Entity)>, n: int, m: int) -> bool {
    exists|a: int, j: int| 0 <= j < n && #[trigger] launch_source(s, m, a, j) && ready_in_range(r, a)
}

/// Runs the combat phase: cooldowns tick down, targets are acquired over the
/// snapshot and committed, then every ready attacker whose target is in range
/// strikes (melee) or launches a projectile (ranged).
///
/// An attack lands only within range and off cooldown: an entity loses
/// health only to a melee attacker that was ready (cooldown run out, target
/// within range), every new projectile leaves a ranged attacker that was
/// ready, and an attacker's cooldown restarts exactly when it attacks.
#[verifier::rlimit(60)]
pub fn update(state: &mut GameState)
    requires
        old(state).wf(),
    ensures
        final(state).wf(),
        (final(state).entities@, final(state).next_entity_id) == combat_result(
            old(state).entities@,
            old(state).next_entity_id,
        ),
        final(state).entities@.len() >= old(state).entities@.len(),
        forall|i: int|
            #![trigger final(state).entities@[i]]
            0 <= i < old(state).entities@.len() ==> kept_in_combat(old(state).entities@[i], final(state).entities@[i]),
        forall|i: int|
            0 <= i < old(state).entities@.len() && (#[trigger] old(state).entities@[i]).1.spec_can_attack()
                ==> acquired(old(state).entities@, i, final(state).entities@[i].1.target),
        forall|i: int|
            0 <= i < old(state).entities@.len() && final(state).entities@[i].1.hp
                < old(state).entities@[i].1.hp ==> exists|a: int|
                #[trigger] melee_source(final(state).entities@, a, i) && ready_in_range(
                    retargeted(cooled(old(state).entities@)),
                    a,
                ),
        forall|m: int|
            old(state).entities@.len() <= m < final(state).entities@.len() ==> #[trigger] launched_in_range(
                retargeted(cooled(old(state).entities@)),
                final(state).entities@,
                old(state).entities@.len() as int,
                m,
            ),
        forall|i: int|
            0 <= i < old(state).entities@.len() ==> (#[trigger] final(state).entities@[i]).1.attack_cooldown
                == if ready_in_range(retargeted(cooled(old(state).entities@)), i) {
                old(state).entities@[i].1.spec_attack_speed()
            } else {
                cooled(old(state).entities@)[i].1.attack_cooldown
            },
        final(state).player1 == old(state).player1,
        final(state).player2 == old(state).player2,
        final(state).rng == old(state).rng,
        final(state).cards@ == old(state).cards@,
        final(state).tick == old(state).tick,
        final(state).match_time == old(state).match_time,
        final(state).max_match_time == old(state).max_match_time,
        crate::movement::troops_apart(old(state).entities@) ==> crate::movement::troops_apart(final(state).entities@),
{
    let ghost s0 = state.entities@;
    cool_down(state);
    let ghost s1 = state.entities@;
    acquire_targets(state);
    let ghost s2 = state.entities@;
    resolve_attacks(state);
    proof {
        let s3 = state.entities@;
        assert forall|i: int| #![trigger s2[i]] 0 <= i < s0.len() implies s2[i].1.hp == s0[i].1.hp by {
            assert(same_but_target(s1[i], s2[i]));
        }
        assert(s1 =~= cooled(s0));
        assert forall|i: int| 0 <= i < s1.len() implies #[trigger] s2[i] == retargeted(s1)[i] by {
            assert(same_but_target(s1[i], s2[i]));
            if s1[i].1.spec_can_attack() {
                let t = s2[i].1.target;
                assert(acquired(s1, i, t));
                let c = choose|t: Option<u32>| acquired(s1, i, t);
                lemma_acquisition_deterministic(s1, state.next_entity_id, i, t, c);
            }
        }
        assert(s2 =~= retargeted(s1));
        assert forall|i: int| 0 <= i < s0.len() implies s2[i].1.spec_attack_speed() == s0[i].1.spec_attack_speed()
            && s2[i].1.attack_cooldown == s1[i].1.attack_cooldown by {
            assert(same_but_target(s1[i], s2[i]));
        }
        assert forall|i: int|
            #![trigger s3[i]]
            0 <= i < s0.len() implies kept_in_combat(s0[i], s3[i]) by {
            assert(same_frame(s2[i], s3[i]));
            assert(same_but_target(s1[i], s2[i]));
        }
        assert forall|i: int| 0 <= i < s0.len() && (#[trigger] s0[i]).1.spec_can_attack() implies acquired(
            s0,
            i,
            s3[i].1.target,
        ) by {
            assert(same_frame(s2[i], s3[i]));
            assert(same_but_target(s1[i], s2[i]));
            lemma_acquired_ignores_cooldown(s0, s1, i, s2[i].1.target);
        }
        if crate::movement::troops_apart(s0) {
            assert forall|i: int| 0 <= i < s3.len() && (#[trigger] s3[i]).1.kind is Troop implies i < s0.len()
                && s3[i].1.position == s0[i].1.position && s0[i].1.kind is Troop by {
                if i >= s0.len() {
                    assert(launched_in_range(s2, s3, s0.len() as int, i));
                    let (a, j) = choose|a: int, j: int| 0 <= j < s0.len() && #[trigger] launch_source(s3, i, a, j) && ready_in_range(s2, a);
                    assert(launch_source(s3, i, a, j));
                } else {
                    assert(kept_in_combat(s0[i], s3[i]));
                }
            }
            assert(crate::movement::troops_apart(s3));
        }
    }
}

/// Plans and applies this tick's attacks over the current store. Health is
/// lost only to a melee attacker holding the victim in range, and every new
/// projectile leaves a ranged attacker holding its target in range.
#[verifier::rlimit(100)]
pub fn resolve_attacks(state: &mut GameState)
    requires
        old(state).wf(),
    ensures
        final(state).wf(),
        (final(state).entities@, final(state).next_entity_id) == strikes(
            old(state).entities@,
            old(state).next_entity_id,
            planned_attacks(old(state).entities@, old(state).entities@.len() as int),
        ),
        forall|i: int|
            0 <= i < old(state).entities@.len() ==> (#[trigger] final(state).entities@[i]).1.attack_cooldown
                == if ready_in_range(old(state).entities@, i) {
                old(state).entities@[i].1.spec_attack_speed()
            } else {
                old(state).entities@[i].1.attack_cooldown
            },
        final(state).entities@.len() >= old(state).entities@.len(),
        forall|i: int|
            #![trigger final(state).entities@[i]]
            0 <= i < old(state).entities@.len() ==> same_frame(old(state).entities@[i], final(state).entities@[i])
                && final(state).entities@[i].1.hp <= old(state).entities@[i].1.hp,
        forall|i: int|
            0 <= i < old(state).entities@.len() && final(state).entities@[i].1.hp
                < old(state).entities@[i].1.hp ==> exists|a: int|
                #[trigger] melee_source(final(state).entities@, a, i) && ready_in_range(old(state).entities@, a),
        forall|m: int|
            old(state).entities@.len() <= m < final(state).entities@.len() ==> #[trigger] launched_in_range(
                old(state).entities@,
                final(state).entities@,
                old(state).entities@.len() as int,
                m,
            ),
        final(state).player1 == old(state).player1,
        final(state).player2 == old(state).player2,
        final(state).rng == old(state).rng,
        final(state).cards@ == old(state).cards@,
        final(state).tick == old(state).tick,
        final(state).match_time == old(state).match_time,
        final(state).max_match_time == old(state).max_match_time,
{
    let ghost s2 = state.entities@;
    let plan = plan_attacks(state);
    apply_attacks(state, &plan);
    proof {
        lemma_losses_in_range(s2, state.entities@, plan@, old(state).next_entity_id);
        lemma_launches_in_range(s2, state.entities@, plan@, old(state).next_entity_id);
        let s3 = state.entities@;
        assert forall|i: int| 0 <= i < s2.len() implies (#[trigger] s3[i]).1.attack_cooldown == if ready_in_range(s2, i) {
            s2[i].1.spec_attack_speed()
        } else {
            s2[i].1.attack_cooldown
        } by {
            if ready_in_range(s2, i) {
                assert(planned(plan@, i));
                let q = choose|q: int| 0 <= q < plan@.len() && (#[trigger] plan@[q]).attacker == i;
                assert(attack_ok(s2, plan@[q]));
            } else if s3[i].1.attack_cooldown != s2[i].1.attack_cooldown {
                assert(planned(plan@, i));
                let q = choose|q: int| 0 <= q < plan@.len() && (#[trigger] plan@[q]).attacker == i;
                let at = plan@[q];
                assert(attack_ok(s2, at));
                lemma_index_of_unique(s2, old(state).next_entity_id, at.target as int);
                assert(ready_in_range(s2, i));
            }
        }
    }
}

/// Every health loss of the attack step comes from a melee attacker that
/// holds the victim as target within range.
proof fn lemma_losses_in_range(s2: Seq<(EntityId, Entity)>, s3: Seq<(EntityId, Entity)>, plan: Seq<Attack>, next: u32)
    requires
        store_wf(s2, next),
        s3.len() >= s2.len(),
        forall|k: int| 0 <= k < plan.len() ==> attack_ok(s2, #[trigger] plan[k]),
        forall|i: int| #![trigger s3[i]] 0 <= i < s2.len() ==> same_frame(s2[i], s3[i]),
        forall|i: int|
            #![trigger s3[i]]
            0 <= i < s2.len() ==> (s3[i].1.hp < s2[i].1.hp ==> struck_by_melee(plan, i)),
    ensures
        forall|i: int|
            0 <= i < s2.len() && s3[i].1.hp < s2[i].1.hp ==> exists|a: int|
                #[trigger] melee_source(s3, a, i) && ready_in_range(s2, a),
{
    assert forall|i: int| 0 <= i < s2.len() && s3[i].1.hp < s2[i].1.hp implies exists|a: int|
        #[trigger] melee_source(s3, a, i) && ready_in_range(s2, a) by {
        assert(same_frame(s2[i], s3[i]));
        let k = choose|k: int| 0 <= k < plan.len() && !(#[trigger] plan[k]).ranged && plan[k].target == i;
        let at = plan[k];
        assert(attack_ok(s2, at));
        let a = at.attacker as int;
        assert(same_frame(s2[a], s3[a]));
        assert(melee_source(s3, a, i));
        lemma_index_of_unique(s2, next, at.target as int);
        assert(ready_in_range(s2, a));
    }
}

/// Every projectile of the attack step leaves a ranged attacker that holds
/// its target within range.
proof fn lemma_launches_in_range(s2: Seq<(EntityId, Entity)>, s3: Seq<(EntityId, Entity)>, plan: Seq<Attack>, next: u32)
    requires
        store_wf(s2, next),
        s3.len() >= s2.len(),
        forall|k: int| 0 <= k < plan.len() ==> attack_ok(s2, #[trigger] plan[k]),
        forall|i: int| #![trigger s3[i]] 0 <= i < s2.len() ==> same_frame(s2[i], s3[i]),
        forall|m: int| #![trigger s3[m]] s2.len() <= m < s3.len() ==> launched_by(s2, plan, s3[m].1),
    ensures
        forall|m: int|
            s2.len() <= m < s3.len() ==> #[trigger] launched_in_range(s2, s3, s2.len() as int, m),
{
    assert forall|m: int| s2.len() <= m < s3.len() implies #[trigger] launched_in_range(
        s2,
        s3,
        s2.len() as int,
        m,
    ) by {
        assert(s2.len() <= m < s3.len());
        let k = choose|k: int| 0 <= k < plan.len() && (#[trigger] plan[k]).ranged && s3[m].1 == launched(s2, plan[k]);
        let at = plan[k];
        assert(attack_ok(s2, at));
        let a = at.attacker as int;
        let j = at.target as int;
        assert(same_frame(s2[a], s3[a]));
        assert(same_frame(s2[j], s3[j]));
        assert(launch_source(s3, m, a, j));
        lemma_index_of_unique(s2, next, j);
        assert(ready_in_range(s2, a));
    }
}

/// Acquisition does not read cooldowns: two stores that differ only in them
/// acquire alike.
proof fn lemma_acquired_ignores_cooldown(
    s0: Seq<(EntityId, Entity)>,
    s1: Seq<(EntityId, Entity)>,
    i: int,
    t: Option<u32>,
)
    requires
        s0.len() == s1.len(),
        0 <= i < s0.len(),
        forall|k: int|
            0 <= k < s0.len() ==> (#[trigger] s1[k]).0 == s0[k].0 && s1[k].1 == (Entity {
                attack_cooldown: s1[k].1.attack_cooldown,
                ..s0[k].1
            }),
        acquired(s1, i, t),
    ensures
        acquired(s0, i, t),
{
    assert forall|j: int| is_candidate(s0, i, j) <==> is_candidate(s1, i, j) by {
        if 0 <= j < s0.len() {
            assert(s1[j].0 == s0[j].0);
        }
    }
    assert(crate::state::ids_of(s0) =~= crate::state::ids_of(s1));
    if holds_valid_target(s1, i) {
        assert(s1[i].1.target == s0[i].1.target);
    } else {
        match t {
            Some(id) => {
                let j = choose|j: int| is_nearest(s1, i, j) && s1[j].0.0 == id;
                assert(s1[j].0 == s0[j].0);
                assert(is_nearest(s0, i, j));
            },
            None => {},
        }
    }
}

/// Target acquisition is a function of the store: an attacker has at most
/// one nearest candidate (ties go to the lower identifier), so no iteration
/// order can change which target it gets.
pub proof fn lemma_acquisition_deterministic(
    s: Seq<(EntityId, Entity)>,
    next: u32,
    i: int,
    t1: Option<u32>,
    t2: Option<u32>,
)
    requires
        store_wf(s, next),
        0 <= i < s.len(),
        acquired(s, i, t1),
        acquired(s, i, t2),
    ensures
        t1 == t2,
{
    if !holds_valid_target(s, i) {
        match (t1, t2) {
            (Some(a), Some(b)) => {
                let j1 = choose|j: int| is_nearest(s, i, j) && s[j].0.0 == a;
                let j2 = choose|j: int| is_nearest(s, i, j) && s[j].0.0 == b;
                assert(is_candidate(s, i, j1) && is_candidate(s, i, j2));
                assert(j1 == j2);
            },
            (Some(a), None) => {
                let j1 = choose|j: int| is_nearest(s, i, j) && s[j].0.0 == a;
                assert(is_candidate(s, i, j1));
            },
            (None, Some(b)) => {
                let j2 = choose|j: int| is_nearest(s, i, j) && s[j].0.0 == b;
                assert(is_candidate(s, i, j2));
            },
            (None, None) => {},
        }
    }
}

/// Every planned attack is the attack of a ready entry among the first `n`,
/// and attackers come in increasing order.
proof fn lemma_planned_shape(s: Seq<(EntityId, Entity)>, n: int)
    requires
        0 <= n <= s.len(),
        s.len() <= usize::MAX,
    ensures
        forall|q: int|
            0 <= q < planned_attacks(s, n).len() ==> {
                let at = #[trigger] planned_attacks(s, n)[q];
                &&& 0 <= at.attacker < n
                &&& ready_in_range(s, at.attacker as int)
                &&& at == attack_of(s, at.attacker as int)
            },
        forall|q: int, r: int|
            0 <= q < r < planned_attacks(s, n).len() ==> planned_attacks(s, n)[q].attacker
                < planned_attacks(s, n)[r].attacker,
        forall|i: int|
            0 <= i < n && #[trigger] ready_in_range(s, i) ==> planned(planned_attacks(s, n), i),
    decreases n,
{
    if n > 0 {
        lemma_planned_shape(s, n - 1);
        let p = planned_attacks(s, n - 1);
        let f = planned_attacks(s, n);
        if ready_in_range(s, n - 1) {
            assert(f == p.push(attack_of(s, n - 1)));
            assert forall|i: int| 0 <= i < n && #[trigger] ready_in_range(s, i) implies planned(f, i) by {
                if i < n - 1 {
                    let q = choose|q: int| 0 <= q < p.len() && (#[trigger] p[q]).attacker == i;
                    assert(f[q] == p[q]);
                } else {
                    assert(f[p.len() as int].attacker == i);
                }
            }
        }
    }
}

/// `h` less `d`, stopping at zero.
pub open spec fn sat_sub(h: u32, d: u32) -> u32 {
    if h >= d { (h - d) as u32 } else { 0 }
}

/// The melee attack of `plan` on the entry `t`, if there is one.
pub open spec fn melee_hit(plan: Seq<Attack>, t: int) -> Option<Attack> {
    if exists|q: int| 0 <= q < plan.len() && (#[trigger] plan[q]).target == t && !plan[q].ranged {
        Some(plan[choose|q: int| 0 <= q < plan.len() && (#[trigger] plan[q]).target == t && !plan[q].ranged])
    } else {
        None
    }
}

/// Along the fold, the health of entry `t` changes only through melee
/// attacks on it: with at most one attack aimed at `t`, `t` ends with its
/// health less that attack's damage if it is melee, untouched otherwise.
proof fn lemma_strikes_on_one_target(
    s0: Seq<(EntityId, Entity)>,
    next: u32,
    plan: Seq<Attack>,
    t: int,
)
    requires
        0 <= t < s0.len(),
        forall|q: int| 0 <= q < plan.len() ==> (#[trigger] plan[q]).attacker < s0.len() && plan[q].target < s0.len(),
        forall|q: int, r: int| 0 <= q < r < plan.len() && plan[q].target == t ==> plan[r].target != t,
    ensures
        strikes(s0, next, plan).0.len() >= s0.len(),
        strikes(s0, next, plan).0[t].1.hp == match melee_hit(plan, t) {
            Some(at) => sat_sub(s0[t].1.hp, at.damage),
            None => s0[t].1.hp,
        },
    decreases plan.len(),
{
    if plan.len() > 0 {
        let p = plan.drop_last();
        let a = plan.last();
        assert forall|q: int| 0 <= q < p.len() implies (#[trigger] p[q]).attacker < s0.len() && p[q].target < s0.len() by {
            assert(p[q] == plan[q]);
        }
        assert forall|q: int, r: int| 0 <= q < r < p.len() && p[q].target == t implies p[r].target != t by {
            assert(p[q] == plan[q] && p[r] == plan[r]);
        }
        lemma_strikes_on_one_target(s0, next, p, t);
        let last = plan.len() - 1;
        if exists|q: int| 0 <= q < p.len() && (#[trigger] p[q]).target == t && !p[q].ranged {
            let q = choose|q: int| 0 <= q < p.len() && (#[trigger] p[q]).target == t && !p[q].ranged;
            assert(plan[q] == p[q]);
            assert(a.target != t);
            assert forall|r: int| 0 <= r < plan.len() && (#[trigger] plan[r]).target == t && !plan[r].ranged implies r == q by {
                if r < q {
                    assert(plan[q].target != t);
                } else if r > q {
                    assert(plan[r].target != t);
                }
            }
        } else {
            if a.target == t && !a.ranged {
                assert(plan[last].target == t && !plan[last].ranged);
                assert forall|r: int| 0 <= r < plan.len() && (#[trigger] plan[r]).target == t && !plan[r].ranged implies r == last by {
                    if r < last {
                        assert(p[r] == plan[r]);
                    }
                }
            } else {
                assert forall|r: int| 0 <= r < plan.len() implies !((#[trigger] plan[r]).target == t && !plan[r].ranged) by {
                    if r < last {
                        assert(p[r] == plan[r]);
                    }
                }
            }
        }
    }
}

/// A melee hit is exact: when a ready melee attacker `m` holds `t` as its
/// target and no other ready attacker aims at `t`, the combat phase takes
/// exactly `m`'s damage off `t` (stopping at zero), and restarts `m`'s
/// cooldown at its attack interval.
pub proof fn lemma_melee_hit_is_exact(s: Seq<(EntityId, Entity)>, next: u32, m: int, t: int)
    requires
        store_wf(s, next),
        s.len() <= usize::MAX,
        0 <= m < s.len(),
        ready_in_range(retargeted(cooled(s)), m),
        !s[m].1.spec_is_ranged(),
        t == index_of(retargeted(cooled(s)), retargeted(cooled(s))[m].1.target->0)->0,
        forall|a: int|
            0 <= a < s.len() && #[trigger] ready_in_range(retargeted(cooled(s)), a) && index_of(
                retargeted(cooled(s)),
                retargeted(cooled(s))[a].1.target->0,
            )->0 == t ==> a == m,
    ensures
        combat_result(s, next).0[t].1.hp == sat_sub(s[t].1.hp, s[m].1.spec_damage()),
{
    let c = cooled(s);
    let a = retargeted(c);
    let n = a.len() as int;
    let plan = planned_attacks(a, n);
    lemma_planned_shape(a, n);
    assert(0 <= t < n);
    assert(a[t].1.hp == s[t].1.hp && a[m].1.spec_damage() == s[m].1.spec_damage()
        && a[m].1.spec_is_ranged() == s[m].1.spec_is_ranged());
    assert forall|q: int| 0 <= q < plan.len() implies (#[trigger] plan[q]).attacker < a.len() && plan[q].target < a.len() by {
        let x = plan[q].attacker as int;
        assert(ready_in_range(a, x));
    }
    assert forall|q: int, r: int| 0 <= q < r < plan.len() && plan[q].target == t implies plan[r].target != t by {
        let x = plan[q].attacker as int;
        let y = plan[r].attacker as int;
        assert(plan[q] == attack_of(a, x));
        assert(plan[r] == attack_of(a, y));
        assert(ready_in_range(a, x) && ready_in_range(a, y));
        let ix = index_of(a, a[x].1.target->0)->0;
        let iy = index_of(a, a[y].1.target->0)->0;
        assert(0 <= ix < n && 0 <= iy < n);
        if plan[r].target == t {
            assert(ix == t && iy == t);
            assert(x == m && y == m);
        }
    }
    assert(planned(plan, m));
    let qm = choose|q: int| 0 <= q < plan.len() && (#[trigger] plan[q]).attacker == m;
    assert(plan[qm] == attack_of(a, m));
    assert(0 <= t < n);
    assert(plan[qm].target as int == t);
    assert(plan[qm].target == t && !plan[qm].ranged);
    lemma_strikes_on_one_target(a, next, plan, t);
    let w = choose|q: int| 0 <= q < plan.len() && (#[trigger] plan[q]).target == t && !plan[q].ranged;
    assert(plan[w] == attack_of(a, plan[w].attacker as int));
    assert(plan[w].attacker == m);
}

} // verus!
