//! Movement: troops steer straight toward their target and move unless the
//! move would overlap another entity.
//!
//! Velocities are computed from the start-of-phase snapshot, so the order of
//! the store does not change where anyone heads. Moves are then committed
//! one troop at a time, in order of identifier, each tested against the
//! places the other entities hold at that moment, so no commit can leave two
//! troops overlapping.
use vstd::prelude::*;
use crate::entities::{CollisionShape, Entity, TROOP_RADIUS};
use crate::geometry::{Position, Velocity, circle_rect_overlap, dist_sq, spec_direction_to};
use crate::state::{EntityId, GameState, index_of};

verus! {

/// The velocity the troop at entry `i` wants: toward its target at its
/// movement speed while the target is in the store and out of range, else
/// zero.
pub open spec fn desired_velocity(s: Seq<(EntityId, Entity)>, i: int) -> Velocity {
    let e = s[i].1;
    match e.target {
        Some(t) => match index_of(s, t) {
            Some(j) => if dist_sq(e.position, s[j].1.position) > e.spec_attack_range()
                * e.spec_attack_range() {
                spec_direction_to(e.position, s[j].1.position, e.spec_movement_speed())
            } else {
                Velocity { x: 0, y: 0 }
            },
            None => Velocity { x: 0, y: 0 },
        },
        None => Velocity { x: 0, y: 0 },
    }
}

/// A circle of radius `r` at `c` overlaps the entity `other`.
pub open spec fn overlaps(other: Entity, c: Position, r: u32) -> bool {
    match other.spec_collision_shape() {
        CollisionShape::Circle { radius } => dist_sq(c, other.position) < (r + radius) * (r + radius),
        CollisionShape::Rectangle { half_width, half_height } => circle_rect_overlap(
            c,
            r as int,
            other.position,
            half_width as int,
            half_height as int,
        ),
        CollisionShape::NoCollision => false,
    }
}

/// The entity at entry `i`, placed at `c`, would overlap another entity of
/// the store.
pub open spec fn blocked(s: Seq<(EntityId, Entity)>, i: int, c: Position) -> bool {
    exists|j: int| 0 <= j < s.len() && j != i && #[trigger] overlaps(s[j].1, c, s[i].1.spec_radius())
}

/// Where the troop at entry `i` tries to go with velocity `v`, if that is a
/// representable position.
pub open spec fn candidate(p: Position, v: Velocity) -> Option<Position> {
    let x = p.x + v.x;
    let y = p.y + v.y;
    if i32::MIN <= x <= i32::MAX && i32::MIN <= y <= i32::MAX {
        Some(Position { x: x as i32, y: y as i32 })
    } else {
        None
    }
}

/// The store with every troop given the velocity it wants.
pub open spec fn steered(s: Seq<(EntityId, Entity)>) -> Seq<(EntityId, Entity)> {
    Seq::new(
        s.len(),
        |i: int|
            (
                s[i].0,
                if s[i].1.spec_can_move() {
                    Entity { velocity: desired_velocity(s, i), ..s[i].1 }
                } else {
                    s[i].1
                },
            ),
    )
}

/// The store after the entry `k` tries its move on `cur`: a troop with a
/// nonzero velocity moves by it unless the new place is unrepresentable or
/// overlaps another entity where it stands now.
pub open spec fn move_one(cur: Seq<(EntityId, Entity)>, k: int) -> Seq<(EntityId, Entity)> {
    let e = cur[k].1;
    if e.spec_can_move() && !(e.velocity.x == 0 && e.velocity.y == 0) {
        match candidate(e.position, e.velocity) {
            Some(c) => if blocked(cur, k, c) {
                cur
            } else {
                cur.update(k, (cur[k].0, Entity { position: c, ..e }))
            },
            None => cur,
        }
    } else {
        cur
    }
}

/// The store after the first `k` entries have tried their moves, in order.
pub open spec fn moves_upto(s: Seq<(EntityId, Entity)>, k: int) -> Seq<(EntityId, Entity)>
    decreases k,
{
    if k <= 0 {
        steered(s)
    } else {
        move_one(moves_upto(s, k - 1), k - 1)
    }
}

/// The store after the movement phase on `s`.
pub open spec fn movement_result(s: Seq<(EntityId, Entity)>) -> Seq<(EntityId, Entity)> {
    moves_upto(s, s.len() as int)
}

/// Every two troops of the store are at least two troop radii apart.
pub open spec fn troops_apart(s: Seq<(EntityId, Entity)>) -> bool {
    forall|i: int, j: int|
        0 <= i < s.len() && 0 <= j < s.len() && i != j && (#[trigger] s[i]).1.kind is Troop
            && (#[trigger] s[j]).1.kind is Troop ==> dist_sq(s[i].1.position, s[j].1.position) >= (2
            * TROOP_RADIUS) * (2 * TROOP_RADIUS)
}

/// Whether a circle of radius `r` at `c` overlaps `other`.
fn overlaps_exec(other: &Entity, c: &Position, r: u32) -> (b: bool)
    ensures
        b == overlaps(*other, *c, r),
{
    match other.collision_shape() {
        CollisionShape::Circle { radius } => {
            let sum: u64 = r as u64 + radius as u64;
            proof {
                assert(sum * sum <= 0x2_0000_0000 * 0x2_0000_0000) by (nonlinear_arith)
                    requires
                        sum <= 0x2_0000_0000,
                ;
            }
            let lim: u128 = sum as u128 * sum as u128;
            c.distance_sq_to(&other.position) < lim
        },
        CollisionShape::Rectangle { half_width, half_height } => c.circle_collides_rect(
            r,
            &other.position,
            half_width,
            half_height,
        ),
        CollisionShape::NoCollision => false,
    }
}

/// Whether the entity at entry `i`, placed at `c`, would overlap another.
pub fn check_collision(state: &GameState, i: usize, c: &Position) -> (b: bool)
    requires
        i < state.entities@.len(),
    ensures
        b == blocked(state.entities@, i as int, *c),
{
    let ghost s = state.entities@;
    let r = state.entities[i].1.radius();
    let mut j: usize = 0;
    while j < state.entities.len()
        invariant
            s == state.entities@,
            i < s.len(),
            j <= s.len(),
            r == s[i as int].1.spec_radius(),
            forall|k: int| 0 <= k < j && k != i ==> !overlaps(s[k].1, *c, r),
        decreases s.len() - j,
    {
        if j != i && overlaps_exec(&state.entities[j].1, c, r) {
            return true;
        }
        j = j + 1;
    }
    false
}

/// The velocity the troop at entry `i` wants.
fn desired_velocity_exec(state: &GameState, i: usize) -> (v: Velocity)
    requires
        state.wf(),
        i < state.entities@.len(),
    ensures
        v == desired_velocity(state.entities@, i as int),
        -0x1_0000_0000 <= v.x <= 0x1_0000_0000,
        -0x1_0000_0000 <= v.y <= 0x1_0000_0000,
{
    let e = &state.entities[i].1;
    match e.target {
        Some(t) => match state.find_index(t) {
            Some(j) => {
                let to = state.entities[j].1.position;
                if !e.position.within_range(&to, e.attack_range()) {
                    e.position.direction_to(&to, e.movement_speed())
                } else {
                    Velocity::zero()
                }
            },
            None => Velocity::zero(),
        },
        None => Velocity::zero(),
    }
}

/// Runs the movement phase: every troop takes the velocity it wants (all
/// computed from the start-of-phase snapshot); then, in store order, each
/// troop moves by it unless the new place would overlap another entity where
/// that entity stands at that moment, or leave the representable plane.
pub fn update(state: &mut GameState)
    requires
        old(state).wf(),
    ensures
        final(state).wf(),
        final(state).entities@ == movement_result(old(state).entities@),
        final(state).next_entity_id == old(state).next_entity_id,
        final(state).player1 == old(state).player1,
        final(state).player2 == old(state).player2,
        final(state).rng == old(state).rng,
        final(state).cards@ == old(state).cards@,
        final(state).tick == old(state).tick,
        final(state).match_time == old(state).match_time,
        final(state).max_match_time == old(state).max_match_time,
{
    let ghost s = state.entities@;
    let n = state.entities.len();
    let mut wanted: Vec<Velocity> = Vec::new();
    let mut i: usize = 0;
    while i < n
        invariant
            s == state.entities@,
            n == s.len(),
            state.wf(),
            i <= n,
            wanted@.len() == i,
            forall|k: int| 0 <= k < i ==> #[trigger] wanted@[k] == steered(s)[k].1.velocity,
        decreases n - i,
    {
        let e = &state.entities[i].1;
        let v = if e.can_move() {
            desired_velocity_exec(state, i)
        } else {
            e.velocity
        };
        wanted.push(v);
        i = i + 1;
    }
    let mut i: usize = 0;
    while i < n
        invariant
            n == s.len(),
            n == state.entities@.len(),
            wanted@.len() == n,
            i <= n,
            state.wf(),
            forall|k: int| 0 <= k < n ==> #[trigger] wanted@[k] == steered(s)[k].1.velocity,
            forall|k: int|
                0 <= k < n ==> #[trigger] state.entities@[k] == if k < i {
                    steered(s)[k]
                } else {
                    s[k]
                },
            state.next_entity_id == old(state).next_entity_id,
            state.player1 == old(state).player1,
            state.player2 == old(state).player2,
            state.rng == old(state).rng,
            state.cards@ == old(state).cards@,
            state.tick == old(state).tick,
            state.match_time == old(state).match_time,
            state.max_match_time == old(state).max_match_time,
        decreases n - i,
    {
        let (id, mut e) = state.entities[i];
        e.velocity = wanted[i];
        state.entities.set(i, (id, e));
        proof {
            let t = state.entities@;
            assert forall|a: int| 0 <= a < t.len() implies (#[trigger] t[a]).0.0 < state.next_entity_id && t[a].1.wf() by {
                assert(t[a].0 == s[a].0);
            }
            assert forall|a: int, b: int| 0 <= a < b < t.len() implies t[a].0.0 < t[b].0.0 by {
                assert(t[a].0 == s[a].0);
                assert(t[b].0 == s[b].0);
            }
        }
        i = i + 1;
    }
    assert(state.entities@ =~= moves_upto(s, 0));
    let mut i: usize = 0;
    while i < n
        invariant
            n == s.len(),
            n == state.entities@.len(),
            i <= n,
            state.wf(),
            state.entities@ == moves_upto(s, i as int),
            state.next_entity_id == old(state).next_entity_id,
            state.player1 == old(state).player1,
            state.player2 == old(state).player2,
            state.rng == old(state).rng,
            state.cards@ == old(state).cards@,
            state.tick == old(state).tick,
            state.match_time == old(state).match_time,
            state.max_match_time == old(state).max_match_time,
        decreases n - i,
    {
        let ghost cur = state.entities@;
        let (id, e) = state.entities[i];
        if e.can_move() && !e.velocity.is_zero() {
            let x: i128 = e.position.x as i128 + e.velocity.x as i128;
            let y: i128 = e.position.y as i128 + e.velocity.y as i128;
            if x >= i32::MIN as i128 && x <= i32::MAX as i128 && y >= i32::MIN as i128 && y <= i32::MAX as i128 {
                let c = Position { x: x as i32, y: y as i32 };
                if !check_collision(state, i, &c) {
                    state.entities.set(i, (id, Entity { position: c, ..e }));
                    proof {
                        let t = state.entities@;
                        assert forall|a: int| 0 <= a < t.len() implies (#[trigger] t[a]).0.0 < state.next_entity_id && t[a].1.wf() by {
                            if a != i {
                                assert(t[a] == cur[a]);
                            }
                        }
                        assert forall|a: int, b: int| 0 <= a < b < t.len() implies t[a].0.0 < t[b].0.0 by {
                            assert(t[a].0 == cur[a].0);
                            assert(t[b].0 == cur[b].0);
                        }
                        assert(t =~= move_one(cur, i as int));
                    }
                }
            }
        }
        i = i + 1;
    }
}

proof fn lemma_dist_sq_symmetric(a: Position, b: Position)
    ensures
        dist_sq(a, b) == dist_sq(b, a),
{
    assert((a.x - b.x) * (a.x - b.x) == (b.x - a.x) * (b.x - a.x)) by (nonlinear_arith);
    assert((a.y - b.y) * (a.y - b.y) == (b.y - a.y) * (b.y - a.y)) by (nonlinear_arith);
}

/// One move keeps troops apart, and keeps every entry's identifier and kind.
proof fn lemma_move_one_keeps_apart(cur: Seq<(EntityId, Entity)>, k: int)
    requires
        0 <= k < cur.len(),
        troops_apart(cur),
    ensures
        troops_apart(move_one(cur, k)),
        move_one(cur, k).len() == cur.len(),
        forall|i: int| 0 <= i < cur.len() ==> (#[trigger] move_one(cur, k)[i]).1.kind == cur[i].1.kind,
{
    let f = move_one(cur, k);
    if f != cur {
        let e = cur[k].1;
        let c = candidate(e.position, e.velocity)->0;
        assert(!blocked(cur, k, c));
        assert(f[k].1.position == c);
        assert forall|i: int, j: int|
            0 <= i < f.len() && 0 <= j < f.len() && i != j && (#[trigger] f[i]).1.kind is Troop
                && (#[trigger] f[j]).1.kind is Troop implies dist_sq(f[i].1.position, f[j].1.position) >= (2
                * TROOP_RADIUS) * (2 * TROOP_RADIUS) by {
            assert(cur[i].1.kind is Troop && cur[j].1.kind is Troop);
            if i == k {
                assert(!overlaps(cur[j].1, c, cur[k].1.spec_radius()));
                assert(f[j] == cur[j]);
            } else if j == k {
                assert(!overlaps(cur[i].1, c, cur[k].1.spec_radius()));
                assert(f[i] == cur[i]);
                lemma_dist_sq_symmetric(c, cur[i].1.position);
            } else {
                assert(f[i] == cur[i] && f[j] == cur[j]);
            }
        }
    }
}

proof fn lemma_moves_keep_apart(s: Seq<(EntityId, Entity)>, k: int)
    requires
        0 <= k <= s.len(),
        troops_apart(s),
    ensures
        troops_apart(moves_upto(s, k)),
        moves_upto(s, k).len() == s.len(),
        forall|i: int| 0 <= i < s.len() ==> (#[trigger] moves_upto(s, k)[i]).1.kind == s[i].1.kind,
    decreases k,
{
    if k == 0 {
        let t = steered(s);
        assert forall|i: int| 0 <= i < s.len() implies (#[trigger] t[i]).1.position == s[i].1.position && t[i].1.kind == s[i].1.kind by {}
    } else {
        lemma_moves_keep_apart(s, k - 1);
        lemma_move_one_keeps_apart(moves_upto(s, k - 1), k - 1);
    }
}

/// Collision invariant: if no two troops overlap before the movement phase
/// (centres at least two troop radii apart), none overlap after it. Each
/// committed move is tested against the places the other entities hold at
/// that moment, so no commit can bring two troops closer than that.
pub proof fn lemma_movement_keeps_troops_apart(s: Seq<(EntityId, Entity)>)
    requires
        troops_apart(s),
    ensures
        troops_apart(movement_result(s)),
{
    lemma_moves_keep_apart(s, s.len() as int);
}

/// `e` is an entry of `s`.
pub open spec fn in_store(s: Seq<(EntityId, Entity)>, e: (EntityId, Entity)) -> bool {
    exists|m: int| 0 <= m < s.len() && s[m] == e
}

/// Keeping only some entries of a store, without repeating one, keeps troops
/// apart.
pub proof fn lemma_selection_keeps_apart(s: Seq<(EntityId, Entity)>, t: Seq<(EntityId, Entity)>)
    requires
        troops_apart(s),
        forall|a: int, b: int| 0 <= a < b < t.len() ==> t[a] != t[b],
        forall|k: int| 0 <= k < t.len() ==> in_store(s, #[trigger] t[k]),
    ensures
        troops_apart(t),
{
    assert forall|i: int, j: int|
        0 <= i < t.len() && 0 <= j < t.len() && i != j && (#[trigger] t[i]).1.kind is Troop
            && (#[trigger] t[j]).1.kind is Troop implies dist_sq(t[i].1.position, t[j].1.position) >= (2
            * TROOP_RADIUS) * (2 * TROOP_RADIUS) by {
        let mi = choose|m: int| 0 <= m < s.len() && s[m] == t[i];
        let mj = choose|m: int| 0 <= m < s.len() && s[m] == t[j];
        if i < j {
            assert(t[i] != t[j]);
        } else {
            assert(t[j] != t[i]);
        }
        assert(mi != mj);
        assert(s[mi].1.kind is Troop && s[mj].1.kind is Troop);
    }
}

proof fn lemma_moves_keep_entry(s: Seq<(EntityId, Entity)>, i: int, k: int)
    requires
        0 <= i < s.len(),
        0 <= k <= s.len(),
        steered(s)[i].1.velocity == (Velocity { x: 0, y: 0 }),
    ensures
        moves_upto(s, k).len() == s.len(),
        moves_upto(s, k)[i] == steered(s)[i],
    decreases k,
{
    if k > 0 {
        lemma_moves_keep_entry(s, i, k - 1);
        let cur = moves_upto(s, k - 1);
        let f = move_one(cur, k - 1);
        if k - 1 != i {
            assert(f.len() == cur.len() && f[i] == cur[i]);
        }
    }
}

/// A troop that holds its target within its attack range does not move:
/// it stops with zero velocity and keeps its place through the phase.
pub proof fn lemma_in_range_holds_position(s: Seq<(EntityId, Entity)>, i: int)
    requires
        0 <= i < s.len(),
        s[i].1.spec_can_move(),
        s[i].1.target is Some,
        index_of(s, s[i].1.target->0) is Some,
        dist_sq(s[i].1.position, s[index_of(s, s[i].1.target->0)->0].1.position) <= s[i].1.spec_attack_range()
            * s[i].1.spec_attack_range(),
    ensures
        movement_result(s)[i].1.position == s[i].1.position,
        movement_result(s)[i].1.velocity == (Velocity { x: 0, y: 0 }),
{
    assert(steered(s)[i].1.velocity == (Velocity { x: 0, y: 0 }));
    lemma_moves_keep_entry(s, i, s.len() as int);
}

} // verus!
