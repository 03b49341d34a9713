//! A deterministic, fixed-timestep combat simulation for a two-player card
//! battler, kept in integer fixed point so that every run of the same seed and
//! action stream produces the same state, bit for bit.
use vstd::prelude::*;

pub mod arena;
pub mod geometry;
pub mod rng;
pub mod entities;
pub mod player;
pub mod card;
pub mod state;
pub mod combat;
pub mod movement;
pub mod projectile;
pub mod lifecycle;
pub mod action;
pub mod elixir;
pub mod determinism;

verus! {

pub use crate::action::{Action, Error};
pub use crate::card::Card;
pub use crate::rng::Rng;
pub use crate::state::GameState;

/// The store and next identifier after the systems of one tick (movement,
/// combat, projectiles, lifecycle) run on `s` with next identifier `next`.
pub open spec fn tick_entities(s: Seq<(state::EntityId, entities::Entity)>, next: u32) -> (Seq<(state::EntityId, entities::Entity)>, u32) {
    let c = combat::combat_result(movement::movement_result(s), next);
    (projectile::projectile_phase(c.0).filter(|e: (state::EntityId, entities::Entity)| lifecycle::entry_alive(e)), c.1)
}

/// `f` is `o` after the action `a`: unchanged if `a` is rejected, else as
/// `action_applied` says.
pub open spec fn action_step(o: GameState, a: Action, f: GameState) -> bool {
    if action::action_outcome(o, a) is Ok {
        action::action_applied(o, f, a)
    } else {
        f == o
    }
}

/// `trace` runs from `o` through the actions `acts`, one state per action
/// applied in order.
pub open spec fn applied_in_order(o: GameState, acts: Seq<Action>, trace: Seq<GameState>) -> bool {
    &&& trace.len() == acts.len() + 1
    &&& trace[0] == o
    &&& forall|k: int| 0 <= k < acts.len() ==> action_step(#[trigger] trace[k], acts[k], trace[k + 1])
}

/// The first rejection among the actions `acts` applied along `trace`, or
/// `Ok` when every one succeeds.
pub open spec fn first_error(trace: Seq<GameState>, acts: Seq<Action>) -> Result<(), Error>
    decreases acts.len(),
{
    if acts.len() == 0 {
        Ok(())
    } else {
        let before = first_error(trace, acts.drop_last());
        if before is Err {
            before
        } else {
            action::action_outcome(trace[acts.len() - 1], acts.last())
        }
    }
}

proof fn lemma_first_error_extend(trace: Seq<GameState>, x: GameState, acts: Seq<Action>)
    requires
        acts.len() < trace.len(),
    ensures
        first_error(trace.push(x), acts) == first_error(trace, acts),
    decreases acts.len(),
{
    if acts.len() > 0 {
        lemma_first_error_extend(trace, x, acts.drop_last());
        assert(trace.push(x)[acts.len() - 1] == trace[acts.len() - 1]);
    }
}

proof fn lemma_first_error_next(trace: Seq<GameState>, acts: Seq<Action>, k: int)
    requires
        0 <= k < acts.len(),
        k < trace.len(),
    ensures
        first_error(trace, acts.take(k + 1)) == if first_error(trace, acts.take(k)) is Err {
            first_error(trace, acts.take(k))
        } else {
            action::action_outcome(trace[k], acts[k])
        },
{
    assert(acts.take(k + 1).drop_last() =~= acts.take(k));
}

/// `f` is `m` after the systems of one tick and the clock: the store and
/// next identifier are `tick_entities` of `m`'s, elixir regenerates, and the
/// random stream, decks and hands are untouched.
pub open spec fn ticked(m: GameState, f: GameState) -> bool {
    &&& (f.entities@, f.next_entity_id) == tick_entities(m.entities@, m.next_entity_id)
    &&& f.rng == m.rng
    &&& f.player1.elixir == elixir::regen_once(
        m.player1.elixir as int,
        m.player1.elixir_regen_rate as int,
        m.player1.max_elixir as int,
    )
    &&& f.player2.elixir == elixir::regen_once(
        m.player2.elixir as int,
        m.player2.elixir_regen_rate as int,
        m.player2.max_elixir as int,
    )
    &&& f.player1.elixir_regen_rate == m.player1.elixir_regen_rate
    &&& f.player2.elixir_regen_rate == m.player2.elixir_regen_rate
    &&& f.player1.max_elixir == m.player1.max_elixir
    &&& f.player2.max_elixir == m.player2.max_elixir
    &&& f.player1.hand@ == m.player1.hand@
    &&& f.player2.hand@ == m.player2.hand@
    &&& f.player1.deck@ == m.player1.deck@
    &&& f.player2.deck@ == m.player2.deck@
    &&& f.player1.next_card_index == m.player1.next_card_index
    &&& f.player2.next_card_index == m.player2.next_card_index
    &&& f.player1.tower_hp == m.player1.tower_hp
    &&& f.player2.tower_hp == m.player2.tower_hp
    &&& f.player1.id == m.player1.id
    &&& f.player2.id == m.player2.id
    &&& f.max_match_time == m.max_match_time
    &&& f.cards@ == m.cards@
    &&& f.tick == if m.tick == u64::MAX { u64::MAX as int } else { m.tick + 1 }
    &&& f.match_time == if m.match_time == u64::MAX { u64::MAX as int } else { m.match_time + 1 }
}

/// Runs one tick: applies `actions` in order, then regeneration, movement,
/// combat, projectiles and the lifecycle sweep, then advances the tick
/// counter and the match clock. A rejected action changes nothing and does
/// not stop the tick; the first rejection is returned.
///
/// A tick without actions is a function of the state before it: the store
/// and the next identifier are `tick_entities` of the old ones, elixir
/// regenerates by `regen_once`, and the random stream is untouched; and if
/// no two troops overlapped before it (centres two troop radii apart), none
/// overlap after it.
#[verifier::rlimit(50)]
pub fn step(state: &mut GameState, actions: &[Action]) -> (r: Result<(), Error>)
    requires
        old(state).wf(),
    ensures
        final(state).wf(),
        actions@.len() == 0 ==> r is Ok,
        final(state).tick == if old(state).tick == u64::MAX { u64::MAX as int } else { old(state).tick + 1 },
        final(state).match_time == if old(state).match_time == u64::MAX {
            u64::MAX as int
        } else {
            old(state).match_time + 1
        },
        actions@.len() == 0 ==> final(state).player1.elixir == elixir::regen_once(
            old(state).player1.elixir as int,
            old(state).player1.elixir_regen_rate as int,
            old(state).player1.max_elixir as int,
        ) && final(state).player2.elixir == elixir::regen_once(
            old(state).player2.elixir as int,
            old(state).player2.elixir_regen_rate as int,
            old(state).player2.max_elixir as int,
        ) && final(state).player1.elixir_regen_rate == old(state).player1.elixir_regen_rate
            && final(state).player2.elixir_regen_rate == old(state).player2.elixir_regen_rate
            && final(state).player1.max_elixir == old(state).player1.max_elixir
            && final(state).player2.max_elixir == old(state).player2.max_elixir,
        actions@.len() == 0 ==> (final(state).entities@, final(state).next_entity_id) == tick_entities(
            old(state).entities@,
            old(state).next_entity_id,
        ) && final(state).rng == old(state).rng,
        actions@.len() == 0 && movement::troops_apart(old(state).entities@) ==> movement::troops_apart(
            final(state).entities@,
        ),
        exists|trace: Seq<GameState>|
            #[trigger] applied_in_order(*old(state), actions@, trace) && ticked(trace.last(), *final(state))
                && r == first_error(trace, actions@),
{
    let mut first: Result<(), Error> = Ok(());
    let ghost mut trace: Seq<GameState> = seq![*state];
    assert(actions@.take(0) =~= Seq::<Action>::empty());
    let mut k: usize = 0;
    while k < actions.len()
        invariant
            state.wf(),
            k <= actions@.len(),
            state.tick == old(state).tick,
            state.match_time == old(state).match_time,
            first is Err ==> k > 0,
            k == 0 ==> *state == *old(state),
            applied_in_order(*old(state), actions@.take(k as int), trace),
            trace.last() == *state,
            first == first_error(trace, actions@.take(k as int)),
        decreases actions@.len() - k,
    {
        let ghost before = *state;
        let r = state.apply_action(&actions[k]);
        proof {
            let t1 = actions@.take(k + 1);
            let tr = trace.push(*state);
            assert(action_step(before, actions@[k as int], *state));
            assert forall|q: int| 0 <= q < t1.len() implies action_step(#[trigger] tr[q], t1[q], tr[q + 1]) by {
                if q < k {
                    assert(tr[q] == trace[q] && tr[q + 1] == trace[q + 1] && t1[q] == actions@.take(k as int)[q]);
                }
            }
            lemma_first_error_extend(trace, *state, actions@.take(k as int));
            lemma_first_error_next(tr, actions@, k as int);
            trace = tr;
        }
        if first.is_ok() {
            first = r;
        }
        k = k + 1;
    }
    proof {
        assert(actions@.take(actions@.len() as int) =~= actions@);
    }
    let ghost m = *state;
    assert(trace.last() == m);
    elixir::update(state);
    let ghost before_moves = state.entities@;
    movement::update(state);
    proof {
        if movement::troops_apart(before_moves) {
            movement::lemma_movement_keeps_troops_apart(before_moves);
        }
    }
    combat::update(state);
    projectile::update(state);
    lifecycle::update(state);
    if state.tick < u64::MAX {
        state.tick = state.tick + 1;
    }
    state.advance_time(1);
    assert(ticked(m, *state));
    assert(applied_in_order(*old(state), actions@, trace));
    first
}

} // verus!
