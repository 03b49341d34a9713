//! Determinism: a tick is a function of the state before it and of the
//! actions submitted, so two runs fed the same seed and the same actions
//! stay identical.
//!
//! States are compared through `state_view`, which reads every field, and
//! strings and vectors by their contents.
use vstd::prelude::*;
use crate::action::{Action, action_applied, action_outcome, deploy_outcome};
use crate::card::{Card, CardLevelStats, CardType, TargetClass};
use crate::entities::Entity;
use crate::geometry::PlayerId;
use crate::player::{PlayerState, TowerHealth};
use crate::rng::Rng;
use crate::state::{EntityId, GameState, names_of};
use crate::{action_step, applied_in_order, ticked};

verus! {

/// The contents of a card that play reads.
pub open spec fn card_view(c: Card) -> (
    Seq<char>,
    u32,
    CardType,
    (Option<u32>, Option<u32>, Option<u32>),
    Option<Seq<TargetClass>>,
    Option<u32>,
    Seq<CardLevelStats>,
) {
    (
        c.name@,
        c.elixir_cost,
        c.card_type,
        (c.attack_speed, c.movement_speed_value, c.range),
        c.spec_targets(),
        c.count,
        c.levels@,
    )
}

/// The contents of a player's state.
pub open spec fn player_view(p: PlayerState) -> (
    PlayerId,
    (u32, u32, u32),
    TowerHealth,
    Seq<Seq<char>>,
    Seq<usize>,
    usize,
) {
    (
        p.id,
        (p.elixir, p.max_elixir, p.elixir_regen_rate),
        p.tower_hp,
        p.deck@.map_values(|n: String| n@),
        p.hand@,
        p.next_card_index,
    )
}

/// The contents of a game state.
pub open spec fn state_view(s: GameState) -> (
    (u64, u64, u64),
    Rng,
    Seq<(EntityId, Entity)>,
    u32,
    (
        (PlayerId, (u32, u32, u32), TowerHealth, Seq<Seq<char>>, Seq<usize>, usize),
        (PlayerId, (u32, u32, u32), TowerHealth, Seq<Seq<char>>, Seq<usize>, usize),
    ),
    Seq<
        (
            Seq<char>,
            u32,
            CardType,
            (Option<u32>, Option<u32>, Option<u32>),
            Option<Seq<TargetClass>>,
            Option<u32>,
            Seq<CardLevelStats>,
        ),
    >,
) {
    (
        (s.tick, s.match_time, s.max_match_time),
        s.rng,
        s.entities@,
        s.next_entity_id,
        (player_view(s.player1), player_view(s.player2)),
        s.cards@.map_values(|c: Card| card_view(c)),
    )
}

proof fn lemma_cards_alike(x: GameState, y: GameState)
    requires
        state_view(x) == state_view(y),
    ensures
        names_of(x.cards@) == names_of(y.cards@),
        x.cards@.len() == y.cards@.len(),
        forall|k: int| 0 <= k < x.cards@.len() ==> card_view(#[trigger] x.cards@[k]) == card_view(y.cards@[k]),
{
    let vx = x.cards@.map_values(|c: Card| card_view(c));
    let vy = y.cards@.map_values(|c: Card| card_view(c));
    assert(vx == vy);
    assert(vx.len() == x.cards@.len() && vy.len() == y.cards@.len());
    assert forall|k: int| 0 <= k < x.cards@.len() implies card_view(#[trigger] x.cards@[k]) == card_view(y.cards@[k]) by {
        assert(vx[k] == card_view(x.cards@[k]));
        assert(vy[k] == card_view(y.cards@[k]));
    }
    assert(names_of(x.cards@) =~= names_of(y.cards@));
}

proof fn lemma_players_alike(x: GameState, y: GameState, p: PlayerId)
    requires
        state_view(x) == state_view(y),
    ensures
        player_view(x.spec_player(p)) == player_view(y.spec_player(p)),
        x.spec_player(p).deck@.len() == y.spec_player(p).deck@.len(),
        forall|k: int| 0 <= k < x.spec_player(p).deck@.len() ==> (#[trigger] x.spec_player(p).deck@[k])@ == y.spec_player(p).deck@[k]@,
{
    let dx = x.spec_player(p).deck@.map_values(|n: String| n@);
    let dy = y.spec_player(p).deck@.map_values(|n: String| n@);
    assert(dx == dy);
    assert forall|k: int| 0 <= k < x.spec_player(p).deck@.len() implies (#[trigger] x.spec_player(p).deck@[k])@ == y.spec_player(p).deck@[k]@ by {
        assert(dx[k] == x.spec_player(p).deck@[k]@);
        assert(dy[k] == y.spec_player(p).deck@[k]@);
    }
}

/// The card played by `a` on `s`, if it is a deploy that resolves to one.
pub open spec fn played_card(s: GameState, a: Action) -> Option<int> {
    match a {
        Action::PlayCard { card_name, .. } => s.card_index(card_name@),
        Action::PlayCardFromHand { player, hand_index, .. } => match s.spec_player(player).spec_hand_card(
            hand_index as int,
        ) {
            Some(name) => s.card_index(name@),
            None => None,
        },
        Action::Emote { .. } => None,
    }
}

proof fn lemma_played_alike(x: GameState, y: GameState, a: Action)
    requires
        state_view(x) == state_view(y),
    ensures
        played_card(x, a) == played_card(y, a),
        action_outcome(x, a) == action_outcome(y, a),
{
    lemma_cards_alike(x, y);
    assert forall|n: Seq<char>| #[trigger] x.card_index(n) is Some implies 0 <= x.card_index(n)->0 < x.cards@.len() by {
        crate::state::lemma_first_position(names_of(x.cards@), n);
    }
    match a {
        Action::PlayCard { player, card_name, level, .. } => {
            lemma_players_alike(x, y, player);
            match x.card_index(card_name@) {
                Some(ci) => {
                    assert(card_view(x.cards@[ci]) == card_view(y.cards@[ci]));
                    assert(x.cards@[ci].has_level(level) == y.cards@[ci].has_level(level));
                    assert(deploy_outcome(x, player, x.cards@[ci], level) == deploy_outcome(y, player, y.cards@[ci], level));
                },
                None => {},
            }
        },
        Action::PlayCardFromHand { player, hand_index, level, .. } => {
            lemma_players_alike(x, y, player);
            let hx = x.spec_player(player).spec_hand_card(hand_index as int);
            let hy = y.spec_player(player).spec_hand_card(hand_index as int);
            assert(hx is Some <==> hy is Some);
            if hx is Some {
                let i = x.spec_player(player).hand@[hand_index as int] as int;
                assert(hx->0@ == hy->0@);
                match x.card_index(hx->0@) {
                    Some(ci) => {
                        assert(card_view(x.cards@[ci]) == card_view(y.cards@[ci]));
                        assert(x.cards@[ci].has_level(level) == y.cards@[ci].has_level(level));
                    },
                    None => {},
                }
            }
        },
        Action::Emote { .. } => {},
    }
}

proof fn lemma_units_functional(
    o: Seq<(EntityId, Entity)>,
    f1: Seq<(EntityId, Entity)>,
    f2: Seq<(EntityId, Entity)>,
    next: u32,
    n1: u32,
    n2: u32,
    d: crate::entities::TroopData,
    count: u32,
    is_troop: bool,
    owner: PlayerId,
    position: crate::geometry::Position,
)
    requires
        crate::action::units_placed(o, f1, next, n1, d, count, is_troop, owner, position),
        crate::action::units_placed(o, f2, next, n2, d, count, is_troop, owner, position),
    ensures
        f1 == f2,
        n1 == n2,
{
    assert forall|k: int| 0 <= k < f1.len() implies f1[k] == f2[k] by {
        if k < o.len() {
            assert(f1[k] == f1.subrange(0, o.len() as int)[k]);
            assert(f2[k] == f2.subrange(0, o.len() as int)[k]);
        }
    }
    assert(f1 =~= f2);
}

proof fn lemma_applied_alike(x: GameState, y: GameState, a: Action, x2: GameState, y2: GameState)
    requires
        state_view(x) == state_view(y),
        action_outcome(x, a) is Ok,
        action_applied(x, x2, a),
        action_applied(y, y2, a),
    ensures
        state_view(x2) == state_view(y2),
{
    lemma_played_alike(x, y, a);
    lemma_cards_alike(x, y);
    lemma_players_alike(x, y, PlayerId::Player1);
    lemma_players_alike(x, y, PlayerId::Player2);
    assert forall|n: Seq<char>| #[trigger] x.card_index(n) is Some implies 0 <= x.card_index(n)->0 < x.cards@.len() by {
        crate::state::lemma_first_position(names_of(x.cards@), n);
    }
    assert(x2.cards@.map_values(|c: Card| card_view(c)) == y2.cards@.map_values(|c: Card| card_view(c))) by {
        match a {
            Action::Emote { .. } => {},
            _ => {
                assert(x2.cards@ == x.cards@);
                assert(y2.cards@ == y.cards@);
            },
        }
    }
    match a {
        Action::PlayCard { player, card_name, level, position } => {
            let ci = x.card_index(card_name@)->0;
            let cx = x.cards@[ci];
            let cy = y.cards@[ci];
            assert(card_view(cx) == card_view(cy));
            assert(cx.levels@ == cy.levels@);
            assert(cx.first_level_row(level) == cy.first_level_row(level));
            assert(cx.spec_troop_data(cx.first_level_row(level)) == cy.spec_troop_data(cy.first_level_row(level)));
            lemma_units_functional(
                x.entities@,
                x2.entities@,
                y2.entities@,
                x.next_entity_id,
                x2.next_entity_id,
                y2.next_entity_id,
                cx.spec_troop_data(cx.first_level_row(level)),
                cx.spec_count(),
                cx.card_type == CardType::Troop,
                player,
                position,
            );
            assert(player_view(x2.player1) == player_view(y2.player1));
            assert(player_view(x2.player2) == player_view(y2.player2));
        },
        Action::PlayCardFromHand { player, hand_index, level, position } => {
            let name = x.spec_player(player).spec_hand_card(hand_index as int)->0;
            let namey = y.spec_player(player).spec_hand_card(hand_index as int)->0;
            assert(name@ == namey@);
            let ci = x.card_index(name@)->0;
            let cx = x.cards@[ci];
            let cy = y.cards@[ci];
            assert(card_view(cx) == card_view(cy));
            assert(cx.levels@ == cy.levels@);
            assert(cx.first_level_row(level) == cy.first_level_row(level));
            assert(cx.spec_troop_data(cx.first_level_row(level)) == cy.spec_troop_data(cy.first_level_row(level)));
            lemma_units_functional(
                x.entities@,
                x2.entities@,
                y2.entities@,
                x.next_entity_id,
                x2.next_entity_id,
                y2.next_entity_id,
                cx.spec_troop_data(cx.first_level_row(level)),
                cx.spec_count(),
                cx.card_type == CardType::Troop,
                player,
                position,
            );
            let px = x2.spec_player(player);
            let py = y2.spec_player(player);
            assert(px.deck@.map_values(|n: String| n@) == py.deck@.map_values(|n: String| n@)) by {
                assert(px.deck@ == x.spec_player(player).deck@);
                assert(py.deck@ == y.spec_player(player).deck@);
            }
            assert(player_view(px) == player_view(py));
            assert(player_view(x2.player1) == player_view(y2.player1));
            assert(player_view(x2.player2) == player_view(y2.player2));
        },
        Action::Emote { .. } => {},
    }
}

proof fn lemma_ticked_alike(x: GameState, y: GameState, x2: GameState, y2: GameState)
    requires
        state_view(x) == state_view(y),
        ticked(x, x2),
        ticked(y, y2),
    ensures
        state_view(x2) == state_view(y2),
{
    lemma_players_alike(x, y, PlayerId::Player1);
    lemma_players_alike(x, y, PlayerId::Player2);
    assert(x2.player1.deck@.map_values(|n: String| n@) == y2.player1.deck@.map_values(|n: String| n@)) by {
        assert(x2.player1.deck@ == x.player1.deck@);
        assert(y2.player1.deck@ == y.player1.deck@);
    }
    assert(x2.player2.deck@.map_values(|n: String| n@) == y2.player2.deck@.map_values(|n: String| n@)) by {
        assert(x2.player2.deck@ == x.player2.deck@);
        assert(y2.player2.deck@ == y.player2.deck@);
    }
    assert(x2.cards@ == x.cards@ && y2.cards@ == y.cards@);
}

proof fn lemma_traces_alike(
    a: GameState,
    b: GameState,
    acts: Seq<Action>,
    ta: Seq<GameState>,
    tb: Seq<GameState>,
    k: int,
)
    requires
        state_view(a) == state_view(b),
        applied_in_order(a, acts, ta),
        applied_in_order(b, acts, tb),
        0 <= k <= acts.len(),
    ensures
        state_view(ta[k]) == state_view(tb[k]),
    decreases k,
{
    if k > 0 {
        lemma_traces_alike(a, b, acts, ta, tb, k - 1);
        let x = ta[k - 1];
        let y = tb[k - 1];
        assert(action_step(x, acts[k - 1], ta[k]));
        assert(action_step(y, acts[k - 1], tb[k]));
        lemma_played_alike(x, y, acts[k - 1]);
        if action_outcome(x, acts[k - 1]) is Ok {
            lemma_applied_alike(x, y, acts[k - 1], ta[k], tb[k]);
        }
    }
}

/// Determinism: two states with the same contents, fed the same actions,
/// are left with the same contents by a tick (entities, players, elixir,
/// random stream, clock). By induction, two runs from the same seed with
/// the same action stream stay identical for any number of ticks.
pub proof fn lemma_tick_deterministic(
    a: GameState,
    b: GameState,
    acts: Seq<Action>,
    ta: Seq<GameState>,
    tb: Seq<GameState>,
    fa: GameState,
    fb: GameState,
)
    requires
        state_view(a) == state_view(b),
        applied_in_order(a, acts, ta),
        ticked(ta.last(), fa),
        applied_in_order(b, acts, tb),
        ticked(tb.last(), fb),
    ensures
        state_view(fa) == state_view(fb),
{
    lemma_traces_alike(a, b, acts, ta, tb, acts.len() as int);
    lemma_ticked_alike(ta.last(), tb.last(), fa, fb);
}

} // verus!
