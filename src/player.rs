//! Per-player state: elixir, tower health and the deck cycle.
//!
//! Elixir is counted in 1/60 units, so a regeneration rate of one elixir per
//! second is one unit per tick.
use vstd::prelude::*;
use crate::geometry::PlayerId;
use crate::rng::Rng;

verus! {

/// Elixir units in one elixir.
pub const ELIXIR_UNIT: u32 = 60;
/// Number of cards in a deck.
pub const DECK_SIZE: usize = 8;
/// Number of cards in a hand.
pub const HAND_SIZE: usize = 4;
/// Starting health of a king tower.
pub const KING_TOWER_HP: u32 = 2400;
/// Starting health of a princess tower.
pub const PRINCESS_TOWER_HP: u32 = 1400;

/// The three towers of a side.
#[derive(Debug, Clone, Copy, PartialEq, Eq, Hash, Structural)]
pub enum TowerType {
    King,
    LeftPrincess,
    RightPrincess,
}

/// Remaining health of each tower of a side.
#[derive(Debug, Clone, Copy, PartialEq, Eq, Structural)]
pub struct TowerHealth {
    pub king: u32,
    pub left_princess: u32,
    pub right_princess: u32,
}

impl TowerHealth {
    pub open spec fn spec_get(self, t: TowerType) -> u32 {
        match t {
            TowerType::King => self.king,
            TowerType::LeftPrincess => self.left_princess,
            TowerType::RightPrincess => self.right_princess,
        }
    }

    pub fn get(&self, t: TowerType) -> (r: u32)
        ensures
            r == self.spec_get(t),
    {
        match t {
            TowerType::King => self.king,
            TowerType::LeftPrincess => self.left_princess,
            TowerType::RightPrincess => self.right_princess,
        }
    }
}

/// The deck after the Fisher-Yates pass over positions `i` down to 1, drawing
/// from `rng`, and the stream after it.
pub open spec fn shuffle_down(deck: Seq<String>, rng: Rng, i: int) -> (Seq<String>, Rng)
    decreases i,
{
    if i <= 0 {
        (deck, rng)
    } else {
        let (v, next) = rng.spec_next();
        let j = Rng::int_in_range(v, 0, (i + 1) as i32) as int;
        shuffle_down(deck.update(i, deck[j]).update(j, deck[i]), next, i - 1)
    }
}

/// Player-specific state.
#[derive(Debug, Clone)]
pub struct PlayerState {
    pub id: PlayerId,
    /// Elixir, in 1/60 units.
    pub elixir: u32,
    pub max_elixir: u32,
    /// Elixir units gained per tick.
    pub elixir_regen_rate: u32,
    pub tower_hp: TowerHealth,
    /// The deck, in cycle order.
    pub deck: Vec<String>,
    /// The hand: four indices into the deck.
    pub hand: Vec<usize>,
    /// Deck index of the next card to enter the hand.
    pub next_card_index: usize,
}

impl PlayerState {
    /// Elixir within its cap; either no deck yet, or a full deck with a hand
    /// of four valid deck indices.
    pub open spec fn wf(&self) -> bool {
        &&& self.elixir <= self.max_elixir
        &&& (self.deck@.len() == 0 && self.hand@.len() == 0 && self.next_card_index == 0) || (
            self.deck@.len() == DECK_SIZE && self.hand@.len() == HAND_SIZE
                && self.next_card_index < DECK_SIZE
                && forall|k: int| 0 <= k < HAND_SIZE ==> #[trigger] self.hand@[k] < DECK_SIZE)
    }

    /// Whether this state is well formed (see `wf`).
    pub fn is_well_formed(&self) -> (r: bool)
        ensures
            r == self.wf(),
    {
        if self.elixir > self.max_elixir {
            return false;
        }
        if self.deck.len() == 0 {
            return self.hand.len() == 0 && self.next_card_index == 0;
        }
        if self.deck.len() != DECK_SIZE || self.hand.len() != HAND_SIZE || self.next_card_index >= DECK_SIZE {
            return false;
        }
        let mut k: usize = 0;
        while k < HAND_SIZE
            invariant
                k <= HAND_SIZE,
                self.hand@.len() == HAND_SIZE,
                forall|m: int| 0 <= m < k ==> #[trigger] self.hand@[m] < DECK_SIZE,
            decreases HAND_SIZE - k,
        {
            if self.hand[k] >= DECK_SIZE {
                return false;
            }
            k = k + 1;
        }
        true
    }

    /// The card in hand slot `slot`, if there is one.
    pub open spec fn spec_hand_card(&self, slot: int) -> Option<String> {
        if 0 <= slot < self.hand@.len() && self.hand@[slot] < self.deck@.len() {
            Some(self.deck@[self.hand@[slot] as int])
        } else {
            None
        }
    }

    /// A player as a match starts it: no deck, five elixir, one elixir per
    /// second, full towers.
    pub open spec fn is_fresh(&self, id: PlayerId) -> bool {
        &&& self.id == id
        &&& self.elixir == 5 * ELIXIR_UNIT
        &&& self.max_elixir == 10 * ELIXIR_UNIT
        &&& self.elixir_regen_rate == 1
        &&& self.tower_hp == (TowerHealth {
            king: KING_TOWER_HP,
            left_princess: PRINCESS_TOWER_HP,
            right_princess: PRINCESS_TOWER_HP,
        })
        &&& self.deck@.len() == 0
        &&& self.hand@.len() == 0
        &&& self.next_card_index == 0
    }

    /// A player with no deck, five elixir, a regeneration rate of one elixir
    /// per second and full towers.
    pub fn new(id: PlayerId) -> (r: PlayerState)
        ensures
            r.wf(),
            r.is_fresh(id),
            r.id == id,
            r.elixir == 5 * ELIXIR_UNIT,
            r.max_elixir == 10 * ELIXIR_UNIT,
            r.elixir_regen_rate == 1,
            r.tower_hp == (TowerHealth {
                king: KING_TOWER_HP,
                left_princess: PRINCESS_TOWER_HP,
                right_princess: PRINCESS_TOWER_HP,
            }),
            r.deck@.len() == 0,
            r.hand@.len() == 0,
            r.next_card_index == 0,
    {
        PlayerState {
            id,
            elixir: 5 * ELIXIR_UNIT,
            max_elixir: 10 * ELIXIR_UNIT,
            elixir_regen_rate: 1,
            tower_hp: TowerHealth {
                king: KING_TOWER_HP,
                left_princess: PRINCESS_TOWER_HP,
                right_princess: PRINCESS_TOWER_HP,
            },
            deck: Vec::new(),
            hand: Vec::new(),
            next_card_index: 0,
        }
    }

    /// Installs an eight-card deck, shuffled with `rng`, and deals the first
    /// four deck positions into the hand.
    pub fn set_deck(&mut self, deck: Vec<String>, rng: &mut Rng)
        requires
            old(self).wf(),
            deck@.len() == DECK_SIZE,
        ensures
            final(self).wf(),
            (final(self).deck@, *final(rng)) == shuffle_down(deck@, *old(rng), 7),
            final(self).hand@ == seq![0usize, 1, 2, 3],
            final(self).next_card_index == 4,
            final(self).elixir == old(self).elixir,
            final(self).max_elixir == old(self).max_elixir,
            final(self).elixir_regen_rate == old(self).elixir_regen_rate,
            final(self).tower_hp == old(self).tower_hp,
            final(self).id == old(self).id,
    {
        self.deck = deck;
        let ghost orig = deck@;
        let ghost rng0 = *rng;
        let mut i: usize = 7;
        while i > 0
            invariant
                i <= 7,
                self.deck@.len() == DECK_SIZE,
                shuffle_down(self.deck@, *rng, i as int) == shuffle_down(orig, rng0, 7),
                self.elixir == old(self).elixir,
                self.max_elixir == old(self).max_elixir,
                self.elixir_regen_rate == old(self).elixir_regen_rate,
                self.tower_hp == old(self).tower_hp,
                self.id == old(self).id,
            decreases i,
        {
            let j = rng.rand_int_range(0, i as i32 + 1) as usize;
            let a = self.deck[i].clone();
            let b = self.deck[j].clone();
            self.deck.set(i, b);
            self.deck.set(j, a);
            i = i - 1;
        }
        self.hand = vec![0, 1, 2, 3];
        self.next_card_index = 4;
        assert(self.hand@ =~= seq![0usize, 1, 2, 3]);
    }

    /// The card in hand slot `hand_index`.
    pub fn get_hand_card(&self, hand_index: usize) -> (r: Option<&String>)
        ensures
            r is Some <==> self.spec_hand_card(hand_index as int) is Some,
            r is Some ==> Some(*r->0) == self.spec_hand_card(hand_index as int),
    {
        if hand_index < self.hand.len() && self.hand[hand_index] < self.deck.len() {
            Some(&self.deck[self.hand[hand_index]])
        } else {
            None
        }
    }

    /// Plays the card in slot `hand_index`: the slot takes the next deck
    /// index of the cycle and the cycle advances. Returns the card played;
    /// with no card in that slot, nothing changes.
    pub fn play_card_from_hand(&mut self, hand_index: usize) -> (r: Option<String>)
        requires
            old(self).wf(),
        ensures
            final(self).wf(),
            r == old(self).spec_hand_card(hand_index as int),
            r is None ==> *final(self) == *old(self),
            r is Some ==> final(self).hand@ == old(self).hand@.update(
                hand_index as int,
                old(self).next_card_index,
            ) && final(self).next_card_index == (old(self).next_card_index + 1) % DECK_SIZE as int
                && final(self).deck@ == old(self).deck@ && final(self).elixir == old(self).elixir
                && final(self).max_elixir == old(self).max_elixir
                && final(self).elixir_regen_rate == old(self).elixir_regen_rate
                && final(self).tower_hp == old(self).tower_hp && final(self).id == old(self).id,
    {
        if hand_index >= self.hand.len() {
            return None;
        }
        let deck_index = self.hand[hand_index];
        if deck_index >= self.deck.len() {
            return None;
        }
        let card_name = self.deck[deck_index].clone();
        self.hand.set(hand_index, self.next_card_index);
        self.next_card_index = (self.next_card_index + 1) % DECK_SIZE;
        Some(card_name)
    }

    /// The king tower has fallen.
    pub fn is_defeated(&self) -> (r: bool)
        ensures
            r == (self.tower_hp.king == 0),
    {
        self.tower_hp.king == 0
    }

    /// Adds `amount` elixir units, capped at the maximum.
    pub fn add_elixir(&mut self, amount: u32)
        requires
            old(self).wf(),
        ensures
            final(self).wf(),
            final(self).elixir == if old(self).elixir + amount > old(self).max_elixir {
                old(self).max_elixir as int
            } else {
                old(self).elixir + amount
            },
            final(self).max_elixir == old(self).max_elixir,
            final(self).elixir_regen_rate == old(self).elixir_regen_rate,
            final(self).tower_hp == old(self).tower_hp,
            final(self).deck@ == old(self).deck@,
            final(self).hand@ == old(self).hand@,
            final(self).next_card_index == old(self).next_card_index,
            final(self).id == old(self).id,
    {
        let sum: u64 = self.elixir as u64 + amount as u64;
        self.elixir = if sum > self.max_elixir as u64 { self.max_elixir } else { sum as u32 };
    }

    /// Spends `cost` elixir units if at least that much is available;
    /// otherwise changes nothing.
    pub fn spend_elixir(&mut self, cost: u32) -> (r: bool)
        requires
            old(self).wf(),
        ensures
            final(self).wf(),
            r == (old(self).elixir >= cost),
            r ==> final(self).elixir == old(self).elixir - cost,
            !r ==> final(self).elixir == old(self).elixir,
            final(self).max_elixir == old(self).max_elixir,
            final(self).elixir_regen_rate == old(self).elixir_regen_rate,
            final(self).tower_hp == old(self).tower_hp,
            final(self).deck@ == old(self).deck@,
            final(self).hand@ == old(self).hand@,
            final(self).next_card_index == old(self).next_card_index,
            final(self).id == old(self).id,
    {
        if self.elixir >= cost {
            self.elixir = self.elixir - cost;
            true
        } else {
            false
        }
    }
}

} // verus!
