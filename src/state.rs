//! The game state: the entity store, both players, the card pool, the random
//! stream and the clock.
use vstd::prelude::*;
use crate::card::Card;
use crate::entities::Entity;
use crate::geometry::PlayerId;
use crate::player::PlayerState;
use crate::rng::Rng;

verus! {

/// Ticks in one second of match time.
pub const TICKS_PER_SECOND: u64 = 60;
/// Length of a match, in ticks (three minutes).
pub const MATCH_TICKS: u64 = 10800;

/// Unique identifier for an entity; never reused within a match.
#[derive(Debug, Clone, Copy, PartialEq, Eq, Hash, Structural)]
pub struct EntityId(pub u32);

impl EntityId {
    pub fn as_u32(&self) -> (r: u32)
        ensures
            r == self.0,
    {
        self.0
    }

    pub fn from_u32(id: u32) -> (r: EntityId)
        ensures
            r.0 == id,
    {
        EntityId(id)
    }
}

/// Entries in strictly increasing order of identifier, every identifier below
/// `next`, every entity well formed.
pub open spec fn store_wf(s: Seq<(EntityId, Entity)>, next: u32) -> bool {
    &&& forall|i: int, j: int| 0 <= i < j < s.len() ==> s[i].0.0 < s[j].0.0
    &&& forall|i: int| 0 <= i < s.len() ==> (#[trigger] s[i]).0.0 < next && s[i].1.wf()
}

/// The identifiers of the store, in order.
pub open spec fn ids_of(s: Seq<(EntityId, Entity)>) -> Seq<u32> {
    s.map_values(|e: (EntityId, Entity)| e.0.0)
}

/// The position of `id` in `ids`.
pub open spec fn position_of(ids: Seq<u32>, id: u32) -> Option<int> {
    if exists|i: int| 0 <= i < ids.len() && ids[i] == id {
        Some(choose|i: int| 0 <= i < ids.len() && ids[i] == id)
    } else {
        None
    }
}

/// The position in the store of the entity with identifier `id`.
pub open spec fn index_of(s: Seq<(EntityId, Entity)>, id: u32) -> Option<int> {
    position_of(ids_of(s), id)
}

/// The names of the cards, in order.
pub open spec fn names_of(cards: Seq<Card>) -> Seq<Seq<char>> {
    cards.map_values(|c: Card| c.name@)
}

/// The first position of `name` in `names`.
pub open spec fn first_position(names: Seq<Seq<char>>, name: Seq<char>) -> Option<int> {
    if exists|k: int| 0 <= k < names.len() && names[k] == name {
        Some(
            choose|k: int|
                0 <= k < names.len() && names[k] == name && forall|m: int| 0 <= m < k ==> names[m] != name,
        )
    } else {
        None
    }
}

/// A found position lies within the names, holds the name and is the first
/// to hold it.
pub proof fn lemma_first_position(names: Seq<Seq<char>>, name: Seq<char>)
    ensures
        first_position(names, name) is Some ==> {
            let k = first_position(names, name)->0;
            0 <= k < names.len() && names[k] == name && forall|m: int| 0 <= m < k ==> names[m] != name
        },
{
    if exists|k: int| 0 <= k < names.len() && names[k] == name {
        let w = choose|k: int| 0 <= k < names.len() && names[k] == name;
        lemma_first_exists(names, name, w);
    }
}

proof fn lemma_first_exists(names: Seq<Seq<char>>, name: Seq<char>, w: int)
    requires
        0 <= w < names.len(),
        names[w] == name,
    ensures
        exists|k: int|
            0 <= k < names.len() && names[k] == name && forall|m: int| 0 <= m < k ==> names[m] != name,
    decreases w,
{
    if exists|m: int| 0 <= m < w && names[m] == name {
        let m = choose|m: int| 0 <= m < w && names[m] == name;
        lemma_first_exists(names, name, m);
    }
}

/// In a sorted store an identifier names at most one entry.
pub proof fn lemma_index_of_unique(s: Seq<(EntityId, Entity)>, next: u32, i: int)
    requires
        store_wf(s, next),
        0 <= i < s.len(),
    ensures
        index_of(s, s[i].0.0) == Some(i),
{
    let ids = ids_of(s);
    assert(ids[i] == s[i].0.0);
    let c = choose|k: int| 0 <= k < ids.len() && ids[k] == s[i].0.0;
    assert(0 <= c < s.len() && s[c].0.0 == s[i].0.0);
    if c < i {
        assert(s[c].0.0 < s[i].0.0);
    } else if c > i {
        assert(s[i].0.0 < s[c].0.0);
    }
}

/// The complete state of a match.
#[derive(Debug, Clone)]
pub struct GameState {
    /// Ticks simulated so far.
    pub tick: u64,
    /// The random stream.
    pub rng: Rng,
    /// Every entity, in increasing order of identifier.
    pub entities: Vec<(EntityId, Entity)>,
    pub player1: PlayerState,
    pub player2: PlayerState,
    /// The cards that can be played.
    pub cards: Vec<Card>,
    /// The identifier the next entity gets.
    pub next_entity_id: u32,
    /// Match time, in ticks.
    pub match_time: u64,
    /// Length of the match, in ticks.
    pub max_match_time: u64,
}

impl GameState {
    pub open spec fn wf(&self) -> bool {
        &&& store_wf(self.entities@, self.next_entity_id)
        &&& self.player1.wf()
        &&& self.player2.wf()
        &&& self.player1.id == PlayerId::Player1
        &&& self.player2.id == PlayerId::Player2
    }

    pub open spec fn spec_player(&self, id: PlayerId) -> PlayerState {
        match id {
            PlayerId::Player1 => self.player1,
            PlayerId::Player2 => self.player2,
        }
    }

    /// The first card of the pool named `name`.
    pub open spec fn card_index(&self, name: Seq<char>) -> Option<int> {
        first_position(names_of(self.cards@), name)
    }

    /// A fresh match seeded with `seed`, over the cards `cards`.
    pub fn with_cards(seed: u64, cards: Vec<Card>) -> (r: GameState)
        ensures
            r.wf(),
            r.tick == 0,
            r.rng == Rng::new_spec(seed),
            r.entities@.len() == 0,
            r.player1.is_fresh(PlayerId::Player1),
            r.player2.is_fresh(PlayerId::Player2),
            r.cards@ == cards@,
            r.next_entity_id == 1,
            r.match_time == 0,
            r.max_match_time == MATCH_TICKS,
    {
        GameState {
            tick: 0,
            rng: Rng::new(seed),
            entities: Vec::new(),
            player1: PlayerState::new(PlayerId::Player1),
            player2: PlayerState::new(PlayerId::Player2),
            cards,
            next_entity_id: 1,
            match_time: 0,
            max_match_time: MATCH_TICKS,
        }
    }

    /// A fresh match seeded with `seed`, over the built-in card set.
    pub fn new(seed: u64) -> (r: GameState)
        ensures
            r.wf(),
            r.tick == 0,
            r.rng == Rng::new_spec(seed),
            r.entities@.len() == 0,
            r.player1.is_fresh(PlayerId::Player1),
            r.player2.is_fresh(PlayerId::Player2),
            r.next_entity_id == 1,
            crate::card::is_builtin_set(r.cards@),
            r.match_time == 0,
            r.max_match_time == MATCH_TICKS,
    {
        Self::with_cards(seed, crate::card::get_test_cards())
    }

    /// Whether this state is well formed: entities in increasing order of
    /// identifier, below the next identifier, each within its health cap;
    /// both players well formed and in their places.
    pub fn is_well_formed(&self) -> (r: bool)
        ensures
            r == self.wf(),
    {
        if !self.player1.is_well_formed() || !self.player2.is_well_formed() {
            return false;
        }
        match (self.player1.id, self.player2.id) {
            (PlayerId::Player1, PlayerId::Player2) => {},
            _ => return false,
        }
        let s = &self.entities;
        assert(s@ == self.entities@);
        let mut i: usize = 0;
        while i < s.len()
            invariant
                s@ == self.entities@,
                i <= s@.len(),
                forall|a: int, b: int| 0 <= a < b < i ==> s@[a].0.0 < s@[b].0.0,
                forall|a: int| 0 <= a < i ==> (#[trigger] s@[a]).0.0 < self.next_entity_id && s@[a].1.wf(),
            decreases s@.len() - i,
        {
            let (id, e) = s[i];
            if id.0 >= self.next_entity_id || e.hp > e.max_hp {
                assert(s@[i as int] == (id, e));
                assert(!store_wf(self.entities@, self.next_entity_id));
                assert(!self.wf());
                return false;
            }
            if i > 0 && s[i - 1].0.0 >= id.0 {
                assert(s@[i as int] == (id, e));
                assert(!(s@[i - 1].0.0 < s@[i as int].0.0));
                assert(!store_wf(self.entities@, self.next_entity_id));
                assert(!self.wf());
                return false;
            }
            proof {
                assert forall|a: int, b: int| 0 <= a < b < i + 1 implies s@[a].0.0 < s@[b].0.0 by {
                    if b == i && a < i - 1 {
                        assert(s@[a].0.0 < s@[i - 1].0.0);
                    }
                }
            }
            i = i + 1;
        }
        true
    }

    /// The state of player `id`.
    pub fn player(&self, id: PlayerId) -> (r: &PlayerState)
        ensures
            *r == self.spec_player(id),
    {
        match id {
            PlayerId::Player1 => &self.player1,
            PlayerId::Player2 => &self.player2,
        }
    }

    /// Replaces the card pool.
    pub fn load_cards(&mut self, cards: Vec<Card>)
        requires
            old(self).wf(),
        ensures
            final(self).wf(),
            final(self).cards@ == cards@,
            final(self).entities@ == old(self).entities@,
            final(self).player1 == old(self).player1,
            final(self).player2 == old(self).player2,
            final(self).rng == old(self).rng,
            final(self).next_entity_id == old(self).next_entity_id,
    {
        self.cards = cards;
    }

    /// The first card of the pool named `name`.
    pub fn get_card_by_name(&self, name: &String) -> (r: Option<&Card>)
        ensures
            r is Some <==> self.card_index(name@) is Some,
            r is Some ==> *r->0 == self.cards@[self.card_index(name@)->0],
    {
        let mut i: usize = 0;
        while i < self.cards.len()
            invariant
                i <= self.cards@.len(),
                forall|m: int| 0 <= m < i ==> self.cards@[m].name@ != name@,
            decreases self.cards@.len() - i,
        {
            if self.cards[i].name == *name {
                let ghost k = i as int;
                proof {
                    let names = names_of(self.cards@);
                    assert(names[k] == name@);
                    assert forall|m: int| 0 <= m < k implies names[m] != name@ by {
                        assert(names[m] == self.cards@[m].name@);
                    }
                    let c = choose|c: int|
                        0 <= c < names.len() && names[c] == name@ && forall|m: int| 0 <= m < c ==> names[m] != name@;
                    if c > k {
                        assert(names[k] == name@);
                    } else if c < k {
                        assert(names[c] == self.cards@[c].name@);
                    }
                }
                return Some(&self.cards[i]);
            }
            i = i + 1;
        }
        None
    }

    /// Position in the store of the entity `id`.
    pub fn find_index(&self, id: u32) -> (r: Option<usize>)
        requires
            self.wf(),
        ensures
            r is Some <==> index_of(self.entities@, id) is Some,
            r is Some ==> r->0 as int == index_of(self.entities@, id)->0,
            r is Some ==> self.entities@[r->0 as int].0.0 == id,
    {
        let mut i: usize = 0;
        while i < self.entities.len()
            invariant
                self.wf(),
                i <= self.entities@.len(),
                forall|m: int| 0 <= m < i ==> self.entities@[m].0.0 != id,
            decreases self.entities@.len() - i,
        {
            if self.entities[i].0.0 == id {
                proof {
                    lemma_index_of_unique(self.entities@, self.next_entity_id, i as int);
                }
                return Some(i);
            }
            i = i + 1;
        }
        None
    }

    /// The entity `id`, if it is in the store.
    pub fn get_entity(&self, id: EntityId) -> (r: Option<&Entity>)
        requires
            self.wf(),
        ensures
            r is Some <==> index_of(self.entities@, id.0) is Some,
            r is Some ==> *r->0 == self.entities@[index_of(self.entities@, id.0)->0].1,
    {
        match self.find_index(id.0) {
            Some(i) => Some(&self.entities[i].1),
            None => None,
        }
    }

    /// Takes the next identifier; `None` once every identifier is used.
    pub fn allocate_entity_id(&mut self) -> (r: Option<EntityId>)
        requires
            old(self).wf(),
        ensures
            final(self).wf(),
            r is Some <==> old(self).next_entity_id < u32::MAX,
            r is Some ==> (r->0).0 == old(self).next_entity_id
                && final(self).next_entity_id == old(self).next_entity_id + 1,
            r is None ==> final(self).next_entity_id == old(self).next_entity_id,
            final(self).entities@ == old(self).entities@,
            final(self).player1 == old(self).player1,
            final(self).player2 == old(self).player2,
            final(self).rng == old(self).rng,
            final(self).cards@ == old(self).cards@,
            final(self).tick == old(self).tick,
            final(self).match_time == old(self).match_time,
            final(self).max_match_time == old(self).max_match_time,
    {
        if self.next_entity_id == u32::MAX {
            return None;
        }
        let id = self.next_entity_id;
        self.next_entity_id = self.next_entity_id + 1;
        Some(EntityId(id))
    }

    /// Adds `entity` under a new identifier; `None` once every identifier is
    /// used, in which case nothing is added.
    pub fn add_entity(&mut self, entity: Entity) -> (r: Option<EntityId>)
        requires
            old(self).wf(),
            entity.wf(),
        ensures
            final(self).wf(),
            r is Some <==> old(self).next_entity_id < u32::MAX,
            r is Some ==> (r->0).0 == old(self).next_entity_id
                && final(self).next_entity_id == old(self).next_entity_id + 1
                && final(self).entities@ == old(self).entities@.push((r->0, entity)),
            r is None ==> final(self).entities@ == old(self).entities@
                && final(self).next_entity_id == old(self).next_entity_id,
            final(self).player1 == old(self).player1,
            final(self).player2 == old(self).player2,
            final(self).rng == old(self).rng,
            final(self).cards@ == old(self).cards@,
            final(self).tick == old(self).tick,
            final(self).match_time == old(self).match_time,
            final(self).max_match_time == old(self).max_match_time,
    {
        match self.allocate_entity_id() {
            Some(id) => {
                self.entities.push((id, entity));
                Some(id)
            },
            None => None,
        }
    }

    /// Removes the entity `id` and returns it.
    pub fn remove_entity(&mut self, id: EntityId) -> (r: Option<Entity>)
        requires
            old(self).wf(),
        ensures
            final(self).wf(),
            r is Some <==> index_of(old(self).entities@, id.0) is Some,
            r is Some ==> r->0 == old(self).entities@[index_of(old(self).entities@, id.0)->0].1
                && final(self).entities@ == old(self).entities@.remove(
                index_of(old(self).entities@, id.0)->0,
            ),
            r is None ==> final(self).entities@ == old(self).entities@,
            final(self).next_entity_id == old(self).next_entity_id,
            final(self).player1 == old(self).player1,
            final(self).player2 == old(self).player2,
            final(self).rng == old(self).rng,
            final(self).cards@ == old(self).cards@,
            final(self).tick == old(self).tick,
            final(self).match_time == old(self).match_time,
            final(self).max_match_time == old(self).max_match_time,
    {
        match self.find_index(id.0) {
            Some(i) => {
                let (_, e) = self.entities.remove(i);
                proof {
                    let s = old(self).entities@;
                    let t = self.entities@;
                    assert forall|a: int, b: int| 0 <= a < b < t.len() implies t[a].0.0 < t[b].0.0 by {
                        if a < i {
                            if b >= i {
                                assert(t[b] == s[b + 1]);
                            }
                        } else {
                            assert(t[a] == s[a + 1]);
                            assert(t[b] == s[b + 1]);
                        }
                    }
                    assert forall|a: int| 0 <= a < t.len() implies (#[trigger] t[a]).0.0 < self.next_entity_id && t[a].1.wf() by {
                        if a >= i {
                            assert(t[a] == s[a + 1]);
                        }
                    }
                }
                Some(e)
            },
            None => None,
        }
    }

    /// The match is over: time has run out or a king tower has fallen.
    pub fn is_match_over(&self) -> (r: bool)
        ensures
            r == (self.match_time >= self.max_match_time || self.player1.tower_hp.king == 0
                || self.player2.tower_hp.king == 0),
    {
        self.match_time >= self.max_match_time || self.player1.is_defeated()
            || self.player2.is_defeated()
    }

    /// Advances the match clock by `delta` ticks, stopping at the largest
    /// representable time.
    pub fn advance_time(&mut self, delta: u64)
        ensures
            final(self).match_time == if old(self).match_time + delta > u64::MAX {
                u64::MAX as int
            } else {
                old(self).match_time + delta
            },
            *final(self) == (GameState { match_time: final(self).match_time, ..*old(self) }),
    {
        self.match_time = self.match_time.saturating_add(delta);
    }
}

} // verus!
