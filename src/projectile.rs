//! Projectiles: each homes on its locked target, advances at its speed and
//! strikes when it reaches the target's collision shape.
use vstd::prelude::*;
use crate::entities::{CollisionShape, Entity, EntityKind, PROJECTILE_RADIUS};
use crate::geometry::{Position, abs_int, circle_rect_overlap, dist_sq, spec_direction_to};
use crate::state::{EntityId, GameState, index_of, store_wf};

verus! {

/// What a projectile does this tick.
pub enum Flight {
    /// Its target is gone or dead: it vanishes without effect.
    Fizzle,
    /// It reaches the target at entry `target` at `at` and deals `damage`.
    Strike { target: int, damage: u32 },
    /// It flies on to `at`.
    Advance { at: Position },
}

/// Where a projectile at `p` flying toward `t` at `speed` is after one tick:
/// on the target if it is within one step, else one step closer.
pub open spec fn spec_advance(p: Position, t: Position, speed: u32) -> Position {
    if dist_sq(p, t) <= speed * speed {
        t
    } else {
        let v = spec_direction_to(p, t, speed);
        Position { x: (p.x + v.x) as i32, y: (p.y + v.y) as i32 }
    }
}

/// A projectile at `c` touches `target`.
pub open spec fn touches(target: Entity, c: Position) -> bool {
    match target.spec_collision_shape() {
        CollisionShape::Circle { radius } => dist_sq(c, target.position) <= (PROJECTILE_RADIUS + radius) * (
        PROJECTILE_RADIUS + radius),
        CollisionShape::Rectangle { half_width, half_height } => circle_rect_overlap(
            c,
            PROJECTILE_RADIUS as int,
            target.position,
            half_width as int,
            half_height as int,
        ),
        CollisionShape::NoCollision => false,
    }
}

/// What the projectile at entry `i` of the store `s` does this tick.
pub open spec fn flight(s: Seq<(EntityId, Entity)>, i: int) -> Flight
    recommends
        s[i].1.kind is Projectile,
{
    let d = s[i].1.kind->Projectile_0;
    match d.target_id {
        None => Flight::Fizzle,
        Some(t) => match index_of(s, t) {
            None => Flight::Fizzle,
            Some(j) => if s[j].1.hp == 0 {
                Flight::Fizzle
            } else {
                let at = spec_advance(s[i].1.position, s[j].1.position, d.speed);
                if touches(s[j].1, at) {
                    Flight::Strike { target: j, damage: d.damage }
                } else {
                    Flight::Advance { at }
                }
            },
        },
    }
}

/// The entry `i` after this tick's flight, before any strike lands on it.
pub open spec fn flown(s: Seq<(EntityId, Entity)>, i: int) -> Entity {
    let e = s[i].1;
    if !(e.kind is Projectile) {
        e
    } else {
        match flight(s, i) {
            Flight::Advance { at } => Entity { position: at, ..e },
            _ => Entity { hp: 0, ..e },
        }
    }
}

/// Some projectile of the store `s` strikes the entry `j` this tick.
pub open spec fn struck(s: Seq<(EntityId, Entity)>, j: int) -> bool {
    exists|k: int|
        0 <= k < s.len() && s[k].1.kind is Projectile && #[trigger] flight(s, k) == (Flight::Strike {
            target: j,
            damage: s[k].1.kind->Projectile_0.damage,
        })
}

/// The strikes of the projectiles among the first `n` entries of `s`, in
/// store order: target entry and damage.
pub open spec fn hits_of(s: Seq<(EntityId, Entity)>, n: int) -> Seq<(usize, u32)>
    decreases n,
{
    if n <= 0 {
        Seq::empty()
    } else {
        let rest = hits_of(s, n - 1);
        if s[n - 1].1.kind is Projectile {
            match flight(s, n - 1) {
                Flight::Strike { target, damage } => rest.push((target as usize, damage)),
                _ => rest,
            }
        } else {
            rest
        }
    }
}

/// The store after every projectile of `s` has flown.
pub open spec fn flown_store(s: Seq<(EntityId, Entity)>) -> Seq<(EntityId, Entity)> {
    Seq::new(s.len(), |i: int| (s[i].0, flown(s, i)))
}

/// `es` after the strikes `hits` deal their damage, in order.
pub open spec fn apply_hits(es: Seq<(EntityId, Entity)>, hits: Seq<(usize, u32)>) -> Seq<(EntityId, Entity)>
    decreases hits.len(),
{
    if hits.len() == 0 {
        es
    } else {
        let before = apply_hits(es, hits.drop_last());
        let (j, dmg) = hits.last();
        let t = before[j as int];
        before.update(
            j as int,
            (t.0, Entity { hp: if t.1.hp >= dmg { (t.1.hp - dmg) as u32 } else { 0 }, ..t.1 }),
        )
    }
}

/// The store after the projectile phase on `s`.
pub open spec fn projectile_result(s: Seq<(EntityId, Entity)>) -> Seq<(EntityId, Entity)> {
    apply_hits(flown_store(s), hits_of(s, s.len() as int))
}

fn advance_exec(p: &Position, t: &Position, speed: u32) -> (r: Position)
    ensures
        r == spec_advance(*p, *t, speed),
{
    if p.within_range(t, speed) {
        *t
    } else {
        let v = p.direction_to(t, speed);
        proof {
            assert(speed * speed <= dist_sq(*p, *t));
            assert(abs_int(v.x as int) <= abs_int(t.x - p.x));
            assert(abs_int(v.y as int) <= abs_int(t.y - p.y));
        }
        Position { x: (p.x as i64 + v.x) as i32, y: (p.y as i64 + v.y) as i32 }
    }
}

fn touches_exec(target: &Entity, c: &Position) -> (b: bool)
    ensures
        b == touches(*target, *c),
{
    match target.collision_shape() {
        CollisionShape::Circle { radius } => {
            let sum: u64 = PROJECTILE_RADIUS as u64 + radius as u64;
            proof {
                assert(sum * sum <= 0x2_0000_0000 * 0x2_0000_0000) by (nonlinear_arith)
                    requires
                        sum <= 0x2_0000_0000,
                ;
            }
            let lim: u128 = sum as u128 * sum as u128;
            c.distance_sq_to(&target.position) <= lim
        },
        CollisionShape::Rectangle { half_width, half_height } => c.circle_collides_rect(
            PROJECTILE_RADIUS,
            &target.position,
            half_width,
            half_height,
        ),
        CollisionShape::NoCollision => false,
    }
}

/// Runs the projectile phase over the start-of-phase snapshot: every
/// projectile fizzles, strikes or advances; strikes then deal their damage.
/// A spent projectile is left at zero health, for `sweep_spent` to remove.
fn fly_and_strike(state: &mut GameState)
    requires
        old(state).wf(),
    ensures
        final(state).wf(),
        final(state).entities@ == projectile_result(old(state).entities@),
        final(state).entities@.len() == old(state).entities@.len(),
        forall|i: int|
            #![trigger final(state).entities@[i]]
            0 <= i < old(state).entities@.len() ==> {
                let o = old(state).entities@;
                let f = final(state).entities@[i];
                &&& f.0 == o[i].0
                &&& f.1 == (Entity { hp: f.1.hp, ..flown(o, i) })
                &&& f.1.hp <= flown(o, i).hp
                &&& (f.1.hp < flown(o, i).hp ==> struck(o, i))
            },
        final(state).next_entity_id == old(state).next_entity_id,
        final(state).player1 == old(state).player1,
        final(state).player2 == old(state).player2,
        final(state).rng == old(state).rng,
        final(state).cards@ == old(state).cards@,
        final(state).tick == old(state).tick,
        final(state).match_time == old(state).match_time,
        final(state).max_match_time == old(state).max_match_time,
{
    let ghost s = state.entities@;
    let n = state.entities.len();
    let mut next: Vec<Entity> = Vec::new();
    let mut hits: Vec<(usize, u32)> = Vec::new();
    let mut i: usize = 0;
    while i < n
        invariant
            s == state.entities@,
            n == s.len(),
            state.wf(),
            i <= n,
            next@.len() == i,
            forall|k: int| 0 <= k < i ==> #[trigger] next@[k] == flown(s, k),
            forall|q: int|
                0 <= q < hits@.len() ==> (#[trigger] hits@[q]).0 < n && struck(s, hits@[q].0 as int),
            hits@ == hits_of(s, i as int),
        decreases n - i,
    {
        let e = state.entities[i].1;
        let out = match e.kind {
            EntityKind::Projectile(d) => {
                let gone = Entity { hp: 0, ..e };
                match d.target_id {
                    None => gone,
                    Some(t) => match state.find_index(t) {
                        None => gone,
                        Some(j) => {
                            let target = state.entities[j].1;
                            if !target.is_alive() {
                                gone
                            } else {
                                let at = advance_exec(&e.position, &target.position, d.speed);
                                if touches_exec(&target, &at) {
                                    proof {
                                        assert(flight(s, i as int) == (Flight::Strike { target: j as int, damage: d.damage }));
                                        assert(struck(s, j as int));
                                    }
                                    hits.push((j, d.damage));
                                    gone
                                } else {
                                    Entity { position: at, ..e }
                                }
                            }
                        },
                    },
                }
            },
            _ => e,
        };
        next.push(out);
        i = i + 1;
    }
    let mut i: usize = 0;
    while i < n
        invariant
            n == s.len(),
            n == state.entities@.len(),
            next@.len() == n,
            i <= n,
            state.wf(),
            forall|k: int| 0 <= k < n ==> #[trigger] next@[k] == flown(s, k),
            forall|k: int|
                0 <= k < n ==> #[trigger] state.entities@[k] == if k < i {
                    (s[k].0, next@[k])
                } else {
                    s[k]
                },
            hits@ == hits_of(s, n as int),
            forall|h: int|
                0 <= h < hits@.len() ==> (#[trigger] hits@[h]).0 < n && struck(s, hits@[h].0 as int),
            state.next_entity_id == old(state).next_entity_id,
            state.player1 == old(state).player1,
            state.player2 == old(state).player2,
            state.rng == old(state).rng,
            state.cards@ == old(state).cards@,
            state.tick == old(state).tick,
            state.match_time == old(state).match_time,
            state.max_match_time == old(state).max_match_time,
        decreases n - i,
    {
        let id = state.entities[i].0;
        state.entities.set(i, (id, next[i]));
        proof {
            let t = state.entities@;
            assert forall|a: int| 0 <= a < t.len() implies (#[trigger] t[a]).0.0 < state.next_entity_id && t[a].1.wf() by {
                assert(t[a].0 == s[a].0);
            }
            assert forall|a: int, b: int| 0 <= a < b < t.len() implies t[a].0.0 < t[b].0.0 by {
                assert(t[a].0 == s[a].0);
                assert(t[b].0 == s[b].0);
            }
        }
        i = i + 1;
    }
    assert(state.entities@ =~= flown_store(s));
    assert(hits@.take(0) =~= Seq::<(usize, u32)>::empty());
    let mut q: usize = 0;
    while q < hits.len()
        invariant
            n == s.len(),
            hits@ == hits_of(s, n as int),
            state.entities@ == apply_hits(flown_store(s), hits@.take(q as int)),
            n == state.entities@.len(),
            state.wf(),
            q <= hits@.len(),
            forall|h: int|
                0 <= h < hits@.len() ==> (#[trigger] hits@[h]).0 < n && struck(s, hits@[h].0 as int),
            forall|k: int|
                #![trigger state.entities@[k]]
                0 <= k < n ==> state.entities@[k].0 == s[k].0 && state.entities@[k].1 == (Entity {
                    hp: state.entities@[k].1.hp,
                    ..flown(s, k)
                }) && state.entities@[k].1.hp <= flown(s, k).hp && (state.entities@[k].1.hp < flown(
                    s,
                    k,
                ).hp ==> struck(s, k)),
            state.next_entity_id == old(state).next_entity_id,
            state.player1 == old(state).player1,
            state.player2 == old(state).player2,
            state.rng == old(state).rng,
            state.cards@ == old(state).cards@,
            state.tick == old(state).tick,
            state.match_time == old(state).match_time,
            state.max_match_time == old(state).max_match_time,
        decreases hits@.len() - q,
    {
        let (j, dmg) = hits[q];
        let ghost before = state.entities@;
        let (id, mut t) = state.entities[j];
        t.take_damage(dmg);
        state.entities.set(j, (id, t));
        proof {
            let cur = state.entities@;
            assert forall|a: int| 0 <= a < cur.len() implies (#[trigger] cur[a]).0.0 < state.next_entity_id && cur[a].1.wf() by {
                if a != j {
                    assert(cur[a] == before[a]);
                }
            }
            assert forall|a: int, b: int| 0 <= a < b < cur.len() implies cur[a].0.0 < cur[b].0.0 by {
                assert(cur[a].0 == before[a].0);
                assert(cur[b].0 == before[b].0);
            }
            assert forall|k: int| #![trigger cur[k]] 0 <= k < n && k != j implies cur[k] == before[k] by {}
            let h1 = hits@.take(q + 1);
            assert(h1.drop_last() =~= hits@.take(q as int));
            assert(h1.last() == (j, dmg));
            assert(cur =~= apply_hits(flown_store(s), h1));
        }
        q = q + 1;
    }
    assert(hits@.take(hits@.len() as int) =~= hits@);
}

/// The entry is not a projectile that has been spent.
pub open spec fn still_flying(e: (EntityId, Entity)) -> bool {
    !(e.1.kind is Projectile && e.1.hp == 0)
}

/// The store after the projectile phase on `s`: every projectile has flown,
/// strikes have dealt their damage, and the projectiles that fizzled or
/// struck (or were destroyed) have left the store.
pub open spec fn projectile_phase(s: Seq<(EntityId, Entity)>) -> Seq<(EntityId, Entity)> {
    projectile_result(s).filter(|e: (EntityId, Entity)| still_flying(e))
}

/// Removes every projectile left without health, keeping the other entries
/// in order.
fn sweep_spent(state: &mut GameState)
    requires
        old(state).wf(),
    ensures
        final(state).wf(),
        final(state).entities@ == old(state).entities@.filter(|e: (EntityId, Entity)| still_flying(e)),
        final(state).next_entity_id == old(state).next_entity_id,
        final(state).player1 == old(state).player1,
        final(state).player2 == old(state).player2,
        final(state).rng == old(state).rng,
        final(state).cards@ == old(state).cards@,
        final(state).tick == old(state).tick,
        final(state).match_time == old(state).match_time,
        final(state).max_match_time == old(state).max_match_time,
        crate::movement::troops_apart(old(state).entities@) ==> crate::movement::troops_apart(final(state).entities@),
{
    let ghost s = state.entities@;
    let n = state.entities.len();
    let mut out: Vec<(EntityId, Entity)> = Vec::new();
    let mut i: usize = 0;
    while i < n
        invariant
            s == state.entities@,
            n == s.len(),
            state.wf(),
            i <= n,
            out@ == s.take(i as int).filter(|e: (EntityId, Entity)| still_flying(e)),
            store_wf(out@, state.next_entity_id),
            out@.len() > 0 ==> forall|m: int| i <= m < n ==> out@.last().0.0 < #[trigger] s[m].0.0,
            forall|k: int| 0 <= k < out@.len() ==> exists|m: int| 0 <= m < i && s[m] == #[trigger] out@[k],
        decreases n - i,
    {
        proof {
            let t = s.take(i + 1);
            assert(t.drop_last() =~= s.take(i as int));
            assert(t.last() == s[i as int]);
            assert(t.len() > 0);
            reveal_with_fuel(Seq::filter, 1);
            assert(t.filter(|e: (EntityId, Entity)| still_flying(e)) == if still_flying(t.last()) {
                t.drop_last().filter(|e: (EntityId, Entity)| still_flying(e)).push(t.last())
            } else {
                t.drop_last().filter(|e: (EntityId, Entity)| still_flying(e))
            });
        }
        let spent = match state.entities[i].1.kind {
            EntityKind::Projectile(_) => state.entities[i].1.hp == 0,
            _ => false,
        };
        if !spent {
            let ghost before = out@;
            out.push(state.entities[i]);
            proof {
                let o = out@;
                assert forall|k: int| 0 <= k < o.len() implies exists|m: int| 0 <= m < i + 1 && s[m] == #[trigger] o[k] by {
                    if k < before.len() {
                        assert(o[k] == before[k]);
                        let m = choose|m: int| 0 <= m < i && s[m] == before[k];
                        assert(s[m] == o[k]);
                    } else {
                        assert(s[i as int] == o[k]);
                    }
                }
                assert forall|a: int, b: int| 0 <= a < b < o.len() implies o[a].0.0 < o[b].0.0 by {
                    if b == o.len() - 1 && a < b {
                        assert(o[a] == before[a]);
                        if a < before.len() - 1 {
                            assert(before[a].0.0 < before.last().0.0);
                        }
                    } else {
                        assert(o[a] == before[a]);
                        assert(o[b] == before[b]);
                    }
                }
                assert forall|a: int| 0 <= a < o.len() implies (#[trigger] o[a]).0.0 < state.next_entity_id && o[a].1.wf() by {
                    if a < before.len() {
                        assert(o[a] == before[a]);
                    }
                }
            }
        }
        assert(out@ == s.take(i + 1).filter(|e: (EntityId, Entity)| still_flying(e)));
        i = i + 1;
    }
    proof {
        assert(s.take(n as int) =~= s);
    }
    proof {
        if crate::movement::troops_apart(s) {
            let o = out@;
            assert forall|x: int, y: int| 0 <= x < y < o.len() implies o[x] != o[y] by {
                assert(o[x].0.0 < o[y].0.0);
            }
            assert forall|k: int| 0 <= k < o.len() implies crate::movement::in_store(s, #[trigger] o[k]) by {
                let m = choose|m: int| 0 <= m < i && s[m] == o[k];
                assert(0 <= m < s.len() && s[m] == o[k]);
            }
            crate::movement::lemma_selection_keeps_apart(s, o);
        }
    }
    state.entities = out;
}

/// Runs the projectile phase over the start-of-phase snapshot: every
/// projectile whose target is gone or dead despawns without effect; every
/// other one homes one step toward its target and, if it then touches the
/// target's shape, strikes it and despawns; strikes then deal their damage.
pub fn update(state: &mut GameState)
    requires
        old(state).wf(),
    ensures
        final(state).wf(),
        final(state).entities@ == projectile_phase(old(state).entities@),
        final(state).next_entity_id == old(state).next_entity_id,
        final(state).player1 == old(state).player1,
        final(state).player2 == old(state).player2,
        final(state).rng == old(state).rng,
        final(state).cards@ == old(state).cards@,
        final(state).tick == old(state).tick,
        final(state).match_time == old(state).match_time,
        final(state).max_match_time == old(state).max_match_time,
        crate::movement::troops_apart(old(state).entities@) ==> crate::movement::troops_apart(final(state).entities@),
{
    let ghost s = state.entities@;
    fly_and_strike(state);
    proof {
        let t = state.entities@;
        if crate::movement::troops_apart(s) {
            assert forall|i: int| 0 <= i < t.len() && (#[trigger] t[i]).1.kind is Troop implies t[i].1.position
                == s[i].1.position && s[i].1.kind is Troop by {
                assert(t[i].1 == (Entity { hp: t[i].1.hp, ..flown(s, i) }));
            }
            assert forall|i: int| 0 <= i < t.len() && (#[trigger] s[i]).1.kind is Troop implies t[i].1.kind is Troop by {
                assert(t[i].1 == (Entity { hp: t[i].1.hp, ..flown(s, i) }));
            }
            assert(crate::movement::troops_apart(t));
        }
    }
    sweep_spent(state);
}

} // verus!
