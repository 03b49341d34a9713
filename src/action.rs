//! Player actions and their application to the game state.
//!
//! A deploy is validated in full (card, level, elixir) before anything is
//! committed, so a rejected action leaves the state exactly as it was.
use vstd::prelude::*;
use crate::card::{Card, CardType};
use crate::entities::TroopData;
use crate::player::PlayerState;
use crate::state::EntityId;
use crate::entities::{Entity, EntityKind};
use crate::geometry::{PlayerId, Position, Velocity};
use crate::state::GameState;

verus! {

/// Why an action was rejected.
#[derive(Debug, Clone, Copy, PartialEq, Eq, Structural)]
pub enum Error {
    /// No card of that name is in the pool.
    UnknownCard,
    /// The card has no stats for the requested level.
    UnknownLevel,
    /// The hand slot holds no card.
    InvalidHandIndex,
    /// The player cannot afford the card.
    InsufficientResource,
    /// The placement tile is outside the placement grid.
    InvalidTile,
}

impl Error {
    /// A short description of the error.
    pub fn message(&self) -> (r: &'static str) {
        match self {
            Error::UnknownCard => "unknown card",
            Error::UnknownLevel => "unknown card level",
            Error::InvalidHandIndex => "invalid hand index",
            Error::InsufficientResource => "not enough elixir",
            Error::InvalidTile => "invalid placement tile",
        }
    }
}

/// Actions that players can take.
#[derive(Debug, Clone)]
pub enum Action {
    /// Play the named card at a level, bypassing the hand.
    PlayCard { player: PlayerId, card_name: String, level: u32, position: Position },
    /// Play the card in a hand slot; the slot is refilled only on success.
    PlayCardFromHand { player: PlayerId, hand_index: usize, level: u32, position: Position },
    /// An emote: recorded for replays, no effect on the match.
    Emote { player: PlayerId, emote_id: u32 },
}

/// A troop with the stats `d`, placed for `owner` at `position`.
pub open spec fn spawned_troop(d: TroopData, owner: PlayerId, position: Position) -> Entity {
    Entity {
        owner,
        position,
        velocity: Velocity { x: 0, y: 0 },
        hp: d.base_hp,
        max_hp: d.base_hp,
        kind: EntityKind::Troop(d),
        attack_cooldown: 0,
        target: None,
    }
}

/// How deploying `card` at `level` by `player` ends on `state`.
pub open spec fn deploy_outcome(state: GameState, player: PlayerId, card: Card, level: u32) -> Result<(), Error> {
    if !card.has_level(level) {
        Err(Error::UnknownLevel)
    } else if state.spec_player(player).elixir < card.elixir_cost {
        Err(Error::InsufficientResource)
    } else {
        Ok(())
    }
}

/// How many units a play places: `count` for a troop card while identifiers
/// remain (as many as remain otherwise), none for another card.
pub open spec fn placed_count(next: u32, count: u32, is_troop: bool) -> int {
    if !is_troop {
        0
    } else if next as int + count < u32::MAX {
        count as int
    } else {
        u32::MAX - next
    }
}

/// The units of a card land at the end of the store: `f` is `o` followed by
/// `placed_count` troops `spawned_troop(d, ..)` with the identifiers from
/// `next` on, and `f_next` is the identifier after them.
pub open spec fn units_placed(o: Seq<(EntityId, Entity)>, f: Seq<(EntityId, Entity)>, next: u32, f_next: u32, d: TroopData, count: u32, is_troop: bool, owner: PlayerId, position: Position) -> bool {
    &&& f.len() == o.len() + placed_count(next, count, is_troop)
    &&& f_next == next + placed_count(next, count, is_troop)
    &&& f.subrange(0, o.len() as int) == o
    &&& forall|k: int|
        o.len() <= k < f.len() ==> (#[trigger] f[k]) == (EntityId((next + (k - o.len())) as u32), spawned_troop(d, owner, position))
}

/// Places `count` troops with the stats `d` (none unless `is_troop`); pays
/// for nothing and checks nothing.
fn spawn_units(state: &mut GameState, d: TroopData, count: u32, is_troop: bool, owner: PlayerId, position: Position)
    requires
        old(state).wf(),
    ensures
        final(state).wf(),
        final(state).player1 == old(state).player1,
        final(state).player2 == old(state).player2,
        final(state).rng == old(state).rng,
        final(state).cards@ == old(state).cards@,
        final(state).tick == old(state).tick,
        final(state).match_time == old(state).match_time,
        final(state).max_match_time == old(state).max_match_time,
        units_placed(old(state).entities@, final(state).entities@, old(state).next_entity_id, final(state).next_entity_id, d, count, is_troop, owner, position),
{
    if !is_troop {
        assert(state.entities@.subrange(0, state.entities@.len() as int) =~= state.entities@);
        return;
    }
    let ghost s0 = state.entities@;
    let ghost next0 = state.next_entity_id;
    let mut c: u32 = 0;
    while c < count
        invariant
            state.wf(),
            c <= count,
            is_troop,
            state.player1 == old(state).player1,
            state.player2 == old(state).player2,
            state.rng == old(state).rng,
            state.cards@ == old(state).cards@,
            state.tick == old(state).tick,
            state.match_time == old(state).match_time,
            state.max_match_time == old(state).max_match_time,
            s0 == old(state).entities@,
            next0 == old(state).next_entity_id,
            state.entities@.len() == s0.len() + placed_count(next0, c, true),
            state.next_entity_id == next0 + placed_count(next0, c, true),
            state.entities@.subrange(0, s0.len() as int) == s0,
            forall|k: int|
                s0.len() <= k < state.entities@.len() ==> (#[trigger] state.entities@[k]) == (
                EntityId((next0 + (k - s0.len())) as u32),
                spawned_troop(d, owner, position),
            ),
        decreases count - c,
    {
        let e = Entity::new(owner, position, EntityKind::Troop(d));
        let ghost before = state.entities@;
        let _ = state.add_entity(e);
        proof {
            let cur = state.entities@;
            assert(cur.subrange(0, s0.len() as int) =~= before.subrange(0, s0.len() as int));
            assert forall|k: int| s0.len() <= k < cur.len() implies (#[trigger] cur[k]) == (
                EntityId((next0 + (k - s0.len())) as u32),
                spawned_troop(d, owner, position),
            ) by {
                if k < before.len() {
                    assert(cur[k] == before[k]);
                }
            }
        }
        c = c + 1;
    }
}

impl Card {
    /// Places this card's units for `owner` at `position` at `level`; fails
    /// with `UnknownLevel` when the card has no such level, changing nothing.
    pub fn spawn(&self, state: &mut GameState, owner: PlayerId, position: Position, level: u32) -> (r: Result<(), Error>)
        requires
            old(state).wf(),
        ensures
            final(state).wf(),
            r is Ok <==> self.has_level(level),
            r is Err ==> r == Err::<(), Error>(Error::UnknownLevel) && *final(state) == *old(state),
            r is Ok ==> final(state).player1 == old(state).player1 && final(state).player2 == old(state).player2
                && final(state).rng == old(state).rng && final(state).cards@ == old(state).cards@
                && final(state).tick == old(state).tick && final(state).match_time == old(state).match_time
                && final(state).max_match_time == old(state).max_match_time && units_placed(
                old(state).entities@,
                final(state).entities@,
                old(state).next_entity_id,
                final(state).next_entity_id,
                self.spec_troop_data(self.first_level_row(level)),
                self.spec_count(),
                self.card_type == CardType::Troop,
                owner,
                position,
            ),
    {
        match self.get_level_stats(level) {
            Some(stats) => {
                let d = self.troop_data(stats);
                let is_troop = match self.card_type {
                    CardType::Troop => true,
                    _ => false,
                };
                spawn_units(state, d, self.unit_count(), is_troop, owner, position);
                Ok(())
            },
            None => Err(Error::UnknownLevel),
        }
    }
}

/// `f` is `o` after `player` paid for and deployed `card` at `level` at
/// `position`; nothing else changed.
pub open spec fn deployed(o: GameState, f: GameState, player: PlayerId, card: Card, level: u32, position: Position) -> bool {
    &&& f.spec_player(player) == (PlayerState { elixir: (o.spec_player(player).elixir - card.elixir_cost) as u32, ..o.spec_player(player) })
    &&& f.spec_player(player.spec_opponent()) == o.spec_player(player.spec_opponent())
    &&& units_placed(
        o.entities@,
        f.entities@,
        o.next_entity_id,
        f.next_entity_id,
        card.spec_troop_data(card.first_level_row(level)),
        card.spec_count(),
        card.card_type == CardType::Troop,
        player,
        position,
    )
    &&& f.rng == o.rng
    &&& f.cards@ == o.cards@
    &&& f.tick == o.tick
    &&& f.match_time == o.match_time
    &&& f.max_match_time == o.max_match_time
}

impl GameState {
    /// Spends `cost` from `player`'s elixir if it has that much.
    fn spend(&mut self, player: PlayerId, cost: u32) -> (r: bool)
        requires
            old(self).wf(),
        ensures
            final(self).wf(),
            r == (old(self).spec_player(player).elixir >= cost),
            r ==> final(self).spec_player(player) == (PlayerState {
                elixir: (old(self).spec_player(player).elixir - cost) as u32,
                ..old(self).spec_player(player)
            }),
            !r ==> *final(self) == *old(self),
            final(self).spec_player(player.spec_opponent()) == old(self).spec_player(player.spec_opponent()),
            final(self).entities@ == old(self).entities@,
            final(self).next_entity_id == old(self).next_entity_id,
            final(self).rng == old(self).rng,
            final(self).cards@ == old(self).cards@,
            final(self).tick == old(self).tick,
            final(self).match_time == old(self).match_time,
            final(self).max_match_time == old(self).max_match_time,
    {
        match player {
            PlayerId::Player1 => {
                if self.player1.elixir >= cost {
                    self.player1.elixir = self.player1.elixir - cost;
                    true
                } else {
                    false
                }
            },
            PlayerId::Player2 => {
                if self.player2.elixir >= cost {
                    self.player2.elixir = self.player2.elixir - cost;
                    true
                } else {
                    false
                }
            },
        }
    }

    /// Validates and, only if every check passes, deploys the pool card at
    /// `ci` for `player`.
    fn deploy(&mut self, player: PlayerId, ci: usize, level: u32, position: Position) -> (r: Result<(), Error>)
        requires
            old(self).wf(),
            ci < old(self).cards@.len(),
        ensures
            final(self).wf(),
            r == deploy_outcome(*old(self), player, old(self).cards@[ci as int], level),
            r is Err ==> *final(self) == *old(self),
            r is Ok ==> deployed(*old(self), *final(self), player, old(self).cards@[ci as int], level, position),
    {
        let stats = match self.cards[ci].get_level_stats(level) {
            Some(st) => st,
            None => return Err(Error::UnknownLevel),
        };
        let cost = self.cards[ci].elixir_cost;
        let d = self.cards[ci].troop_data(stats);
        let count = self.cards[ci].unit_count();
        let is_troop = match self.cards[ci].card_type {
            CardType::Troop => true,
            _ => false,
        };
        if !self.spend(player, cost) {
            return Err(Error::InsufficientResource);
        }
        spawn_units(self, d, count, is_troop, player, position);
        Ok(())
    }

    /// The position in the pool of the first card named `name`.
    pub fn find_card(&self, name: &String) -> (r: Option<usize>)
        ensures
            r is Some <==> self.card_index(name@) is Some,
            r is Some ==> r->0 as int == self.card_index(name@)->0 && r->0 < self.cards@.len(),
    {
        let mut i: usize = 0;
        while i < self.cards.len()
            invariant
                i <= self.cards@.len(),
                forall|m: int| 0 <= m < i ==> self.cards@[m].name@ != name@,
            decreases self.cards@.len() - i,
        {
            if self.cards[i].name == *name {
                let ghost k = i as int;
                proof {
                    let names = crate::state::names_of(self.cards@);
                    assert(names[k] == name@);
                    assert forall|m: int| 0 <= m < k implies names[m] != name@ by {
                        assert(names[m] == self.cards@[m].name@);
                    }
                    let c = choose|c: int|
                        0 <= c < names.len() && names[c] == name@ && forall|m: int| 0 <= m < c ==> names[m] != name@;
                    if c > k {
                        assert(names[k] == name@);
                    } else if c < k {
                        assert(names[c] == self.cards@[c].name@);
                    }
                }
                return Some(i);
            }
            i = i + 1;
        }
        None
    }
}

/// How applying `a` to `s` ends.
pub open spec fn action_outcome(s: GameState, a: Action) -> Result<(), Error> {
    match a {
        Action::PlayCard { player, card_name, level, .. } => match s.card_index(card_name@) {
            None => Err(Error::UnknownCard),
            Some(ci) => deploy_outcome(s, player, s.cards@[ci], level),
        },
        Action::PlayCardFromHand { player, hand_index, level, .. } => match s.spec_player(
            player,
        ).spec_hand_card(hand_index as int) {
            None => Err(Error::InvalidHandIndex),
            Some(name) => match s.card_index(name@) {
                None => Err(Error::UnknownCard),
                Some(ci) => deploy_outcome(s, player, s.cards@[ci], level),
            },
        },
        Action::Emote { .. } => Ok(()),
    }
}

/// `f` is `o` after the successful action `a`.
pub open spec fn action_applied(o: GameState, f: GameState, a: Action) -> bool {
    match a {
        Action::PlayCard { player, card_name, level, position } => deployed(
            o,
            f,
            player,
            o.cards@[o.card_index(card_name@)->0],
            level,
            position,
        ),
        Action::PlayCardFromHand { player, hand_index, level, position } => {
            let name = o.spec_player(player).spec_hand_card(hand_index as int)->0;
            let card = o.cards@[o.card_index(name@)->0];
            let op = o.spec_player(player);
            let fp = f.spec_player(player);
            &&& fp.elixir == op.elixir - card.elixir_cost
            &&& fp.hand@ == op.hand@.update(hand_index as int, op.next_card_index)
            &&& fp.next_card_index == (op.next_card_index + 1) % crate::player::DECK_SIZE as int
            &&& fp.deck@ == op.deck@
            &&& fp.max_elixir == op.max_elixir
            &&& fp.elixir_regen_rate == op.elixir_regen_rate
            &&& fp.tower_hp == op.tower_hp
            &&& fp.id == op.id
            &&& f.spec_player(player.spec_opponent()) == o.spec_player(player.spec_opponent())
            &&& units_placed(
                o.entities@,
                f.entities@,
                o.next_entity_id,
                f.next_entity_id,
                card.spec_troop_data(card.first_level_row(level)),
                card.spec_count(),
                card.card_type == CardType::Troop,
                player,
                position,
            )
            &&& f.rng == o.rng
            &&& f.cards@ == o.cards@
            &&& f.tick == o.tick
            &&& f.match_time == o.match_time
            &&& f.max_match_time == o.max_match_time
        },
        Action::Emote { .. } => f == o,
    }
}

impl Action {
    /// Applies this action. A rejected action changes nothing; a deploy from
    /// the hand refills the slot only once the deploy has succeeded.
    pub fn apply(&self, state: &mut GameState) -> (r: Result<(), Error>)
        requires
            old(state).wf(),
        ensures
            final(state).wf(),
            r == action_outcome(*old(state), *self),
            r is Err ==> *final(state) == *old(state),
            r is Ok ==> action_applied(*old(state), *final(state), *self),
    {
        match self {
            Action::PlayCard { player, card_name, level, position } => {
                match state.find_card(card_name) {
                    Some(ci) => state.deploy(*player, ci, *level, *position),
                    None => Err(Error::UnknownCard),
                }
            },
            Action::PlayCardFromHand { player, hand_index, level, position } => {
                state.deploy_from_hand(*player, *hand_index, *level, *position)
            },
            Action::Emote { .. } => Ok(()),
        }
    }
}

impl GameState {
    /// Deploys the card in `player`'s hand slot `hand_index`, then refills the
    /// slot from the deck cycle; on any failure nothing changes.
    #[verifier::rlimit(80)]
    fn deploy_from_hand(&mut self, player: PlayerId, hand_index: usize, level: u32, position: Position) -> (r: Result<(), Error>)
        requires
            old(self).wf(),
        ensures
            final(self).wf(),
            r == action_outcome(*old(self), Action::PlayCardFromHand { player, hand_index, level, position }),
            r is Err ==> *final(self) == *old(self),
            r is Ok ==> action_applied(*old(self), *final(self), Action::PlayCardFromHand { player, hand_index, level, position }),
    {
        let name = match self.player(player).get_hand_card(hand_index) {
            Some(n) => n.clone(),
            None => return Err(Error::InvalidHandIndex),
        };
        let ci = match self.find_card(&name) {
            Some(ci) => ci,
            None => return Err(Error::UnknownCard),
        };
        let ghost mid = *self;
        match self.deploy(player, ci, level, position) {
            Ok(()) => {},
            Err(e) => return Err(e),
        }
        let ghost after = *self;
        assert(after.spec_player(player).spec_hand_card(hand_index as int) == mid.spec_player(
            player,
        ).spec_hand_card(hand_index as int));
        match player {
            PlayerId::Player1 => {
                let _ = self.player1.play_card_from_hand(hand_index);
            },
            PlayerId::Player2 => {
                let _ = self.player2.play_card_from_hand(hand_index);
            },
        }
        Ok(())
    }

    /// Applies a player action; see `Action::apply`.
    pub fn apply_action(&mut self, action: &Action) -> (r: Result<(), Error>)
        requires
            old(self).wf(),
        ensures
            final(self).wf(),
            r == action_outcome(*old(self), *action),
            r is Err ==> *final(self) == *old(self),
            r is Ok ==> action_applied(*old(self), *final(self), *action),
    {
        action.apply(self)
    }

    /// Installs an eight-card deck for `player`, shuffled with the match's
    /// random stream. Every name must be a card of the pool; otherwise
    /// nothing changes and `UnknownCard` is returned.
    pub fn set_player_deck(&mut self, player: PlayerId, deck: Vec<String>) -> (r: Result<(), Error>)
        requires
            old(self).wf(),
            deck@.len() == crate::player::DECK_SIZE,
        ensures
            final(self).wf(),
            r is Ok <==> forall|k: int| 0 <= k < deck@.len() ==> #[trigger] old(self).card_index(deck@[k]@) is Some,
            r is Err ==> r == Err::<(), Error>(Error::UnknownCard) && *final(self) == *old(self),
            r is Ok ==> (final(self).spec_player(player).deck@, final(self).rng)
                == crate::player::shuffle_down(deck@, old(self).rng, 7)
                && final(self).spec_player(player).hand@ == seq![0usize, 1, 2, 3]
                && final(self).spec_player(player).next_card_index == 4
                && final(self).spec_player(player).elixir == old(self).spec_player(player).elixir
                && final(self).spec_player(player.spec_opponent()) == old(self).spec_player(player.spec_opponent())
                && final(self).entities@ == old(self).entities@
                && final(self).cards@ == old(self).cards@,
    {
        let mut k: usize = 0;
        while k < deck.len()
            invariant
                *self == *old(self),
                self.wf(),
                k <= deck@.len(),
                forall|m: int| 0 <= m < k ==> #[trigger] self.card_index(deck@[m]@) is Some,
            decreases deck@.len() - k,
        {
            if self.find_card(&deck[k]).is_none() {
                return Err(Error::UnknownCard);
            }
            k = k + 1;
        }
        match player {
            PlayerId::Player1 => self.player1.set_deck(deck, &mut self.rng),
            PlayerId::Player2 => self.player2.set_deck(deck, &mut self.rng),
        }
        Ok(())
    }
}

/// Columns of the placement grid.
pub const PLACEMENT_COLUMNS: usize = 16;
/// Rows of the placement grid.
pub const PLACEMENT_ROWS: usize = 9;
/// Card level used by a placement request.
pub const PLACEMENT_LEVEL: u32 = 11;
/// Match time one placement request advances, in ticks (one second).
pub const PLACEMENT_TICKS: u64 = 60;

/// The position of placement tile `tile`: the tile's corner, in length units.
pub open spec fn placement_position(tile: int) -> Position {
    Position {
        x: ((tile % PLACEMENT_COLUMNS as int) * crate::geometry::UNITS_PER_TILE) as i32,
        y: ((tile / PLACEMENT_COLUMNS as int) * crate::geometry::UNITS_PER_TILE) as i32,
    }
}

/// Handles one placement request from an external controller: `pov` plays
/// the card in hand slot `card_idx` at level 11 on placement tile `tile_idx`
/// of the 16 by 9 grid, then the match clock advances by one second whether
/// or not the play succeeded. A request naming an empty slot or a tile off
/// the grid changes nothing at all.
pub fn step_with_action(game: &mut GameState, pov: PlayerId, card_idx: usize, tile_idx: usize) -> (r: Result<(), Error>)
    requires
        old(game).wf(),
    ensures
        final(game).wf(),
        old(game).spec_player(pov).spec_hand_card(card_idx as int) is None ==> r == Err::<(), Error>(
            Error::InvalidHandIndex,
        ) && *final(game) == *old(game),
        old(game).spec_player(pov).spec_hand_card(card_idx as int) is Some && tile_idx >= PLACEMENT_COLUMNS
            * PLACEMENT_ROWS ==> r == Err::<(), Error>(Error::InvalidTile) && *final(game) == *old(game),
        old(game).spec_player(pov).spec_hand_card(card_idx as int) is Some && tile_idx < PLACEMENT_COLUMNS
            * PLACEMENT_ROWS ==> {
            let a = Action::PlayCard {
                player: pov,
                card_name: old(game).spec_player(pov).spec_hand_card(card_idx as int)->0,
                level: PLACEMENT_LEVEL,
                position: placement_position(tile_idx as int),
            };
            &&& final(game).match_time == if old(game).match_time + PLACEMENT_TICKS > u64::MAX {
                u64::MAX as int
            } else {
                old(game).match_time + PLACEMENT_TICKS
            }
            &&& r == action_outcome(*old(game), a)
            &&& r is Ok ==> action_applied(*old(game), (GameState { match_time: old(game).match_time, ..*final(game) }), a)
            &&& r is Err ==> *final(game) == (GameState { match_time: final(game).match_time, ..*old(game) })
        },
{
    let name = match game.player(pov).get_hand_card(card_idx) {
        Some(n) => n.clone(),
        None => return Err(Error::InvalidHandIndex),
    };
    if tile_idx >= PLACEMENT_COLUMNS * PLACEMENT_ROWS {
        return Err(Error::InvalidTile);
    }
    let gx = (tile_idx % PLACEMENT_COLUMNS) as i32;
    let gy = (tile_idx / PLACEMENT_COLUMNS) as i32;
    let position = Position { x: gx * crate::geometry::UNITS_PER_TILE, y: gy * crate::geometry::UNITS_PER_TILE };
    let action = Action::PlayCard { player: pov, card_name: name, level: PLACEMENT_LEVEL, position };
    let r = game.apply_action(&action);
    game.advance_time(PLACEMENT_TICKS);
    r
}

} // verus!
