//! Elixir regeneration.
use vstd::prelude::*;
use crate::state::GameState;

verus! {

/// Elixir after one tick of regeneration: `rate` more, capped at `max`.
pub open spec fn regen_once(e: int, rate: int, max: int) -> int {
    if e + rate > max { max } else { e + rate }
}

/// Elixir after `n` ticks of regeneration with no spending.
pub open spec fn regen_ticks(e: int, rate: int, max: int, n: nat) -> int
    decreases n,
{
    if n == 0 { e } else { regen_ticks(regen_once(e, rate, max), rate, max, (n - 1) as nat) }
}

/// Resource cap: with no spending, `n` ticks of regeneration from `e` (at
/// most `max`) leave exactly `min(max, e + rate * n)`.
pub proof fn lemma_regen_closed_form(e: int, rate: int, max: int, n: nat)
    requires
        e <= max,
        rate >= 0,
    ensures
        regen_ticks(e, rate, max, n) == if e + rate * n > max { max } else { e + rate * n },
    decreases n,
{
    if n == 0 {
        assert(rate * n == 0) by (nonlinear_arith)
            requires
                n == 0,
        ;
    } else {
        let m = (n - 1) as nat;
        let e1 = regen_once(e, rate, max);
        lemma_regen_closed_form(e1, rate, max, m);
        assert(regen_ticks(e, rate, max, n) == regen_ticks(e1, rate, max, m));
        assert(rate * n == rate + rate * m) by (nonlinear_arith)
            requires
                m == n - 1,
        ;
        assert(rate * m >= 0) by (nonlinear_arith)
            requires
                rate >= 0,
        ;
    }
}

/// Regenerates every player's elixir by one tick.
pub fn update(state: &mut GameState)
    requires
        old(state).wf(),
    ensures
        final(state).wf(),
        final(state).player1.elixir == regen_once(
            old(state).player1.elixir as int,
            old(state).player1.elixir_regen_rate as int,
            old(state).player1.max_elixir as int,
        ),
        final(state).player2.elixir == regen_once(
            old(state).player2.elixir as int,
            old(state).player2.elixir_regen_rate as int,
            old(state).player2.max_elixir as int,
        ),
        final(state).player1.max_elixir == old(state).player1.max_elixir,
        final(state).player2.max_elixir == old(state).player2.max_elixir,
        final(state).player1.elixir_regen_rate == old(state).player1.elixir_regen_rate,
        final(state).player2.elixir_regen_rate == old(state).player2.elixir_regen_rate,
        final(state).player1.hand@ == old(state).player1.hand@,
        final(state).player2.hand@ == old(state).player2.hand@,
        final(state).player1.deck@ == old(state).player1.deck@,
        final(state).player2.deck@ == old(state).player2.deck@,
        final(state).player1.next_card_index == old(state).player1.next_card_index,
        final(state).player1.tower_hp == old(state).player1.tower_hp,
        final(state).player2.tower_hp == old(state).player2.tower_hp,
        final(state).player1.id == old(state).player1.id,
        final(state).player2.id == old(state).player2.id,
        final(state).player2.next_card_index == old(state).player2.next_card_index,
        final(state).entities@ == old(state).entities@,
        final(state).next_entity_id == old(state).next_entity_id,
        final(state).rng == old(state).rng,
        final(state).cards@ == old(state).cards@,
        final(state).tick == old(state).tick,
        final(state).match_time == old(state).match_time,
        final(state).max_match_time == old(state).max_match_time,
{
    let r1 = state.player1.elixir_regen_rate;
    state.player1.add_elixir(r1);
    let r2 = state.player2.elixir_regen_rate;
    state.player2.add_elixir(r2);
}

} // verus!
