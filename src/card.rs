//! Card definitions and deployment.
//!
//! Cards are supplied by the caller (a configuration loader outside this
//! library). Their stats are in the library's fixed-point units.
use vstd::prelude::*;
use vstd::string::StrSliceExecFns;
use crate::entities::{TargetType, TroopData};

verus! {

/// Health of a troop whose level row gives none.
pub const DEFAULT_TROOP_HP: u32 = 100;
/// Damage of a troop whose level row gives none.
pub const DEFAULT_TROOP_DAMAGE: u32 = 10;
/// Range of a troop whose card gives none (one tile).
pub const DEFAULT_TROOP_RANGE: u32 = 1200;
/// Attack interval of a troop whose card gives none (one second).
pub const DEFAULT_ATTACK_INTERVAL: u32 = 60;
/// Movement speed of a troop whose card gives none.
pub const DEFAULT_MOVEMENT_SPEED: u32 = 1200;
/// Troops with a range beyond this (two tiles) attack with projectiles.
pub const MELEE_RANGE_LIMIT: u32 = 2400;

/// Card rarity.
#[derive(Debug, Clone, Copy, PartialEq, Eq, Structural)]
pub enum Rarity {
    Common,
    Rare,
    Epic,
    Legendary,
}

/// What a card puts into the arena.
#[derive(Debug, Clone, Copy, PartialEq, Eq, Structural)]
pub enum CardType {
    Troop,
    Spell,
    Building,
}

/// A class of entity listed in a card's targets.
#[derive(Debug, Clone, Copy, PartialEq, Eq, Structural)]
pub enum TargetClass {
    Air,
    Ground,
    Buildings,
}

/// Stats that vary by card level.
#[derive(Debug, Clone, Copy, PartialEq, Eq, Structural)]
pub struct CardLevelStats {
    pub level: u32,
    pub hp: Option<u32>,
    pub damage: Option<u32>,
}

/// A card that can be played by a player.
#[derive(Debug, Clone)]
pub struct Card {
    pub name: String,
    /// Cost in elixir units (1/60 of an elixir).
    pub elixir_cost: u32,
    pub rarity: Rarity,
    pub card_type: CardType,
    /// Ticks between attacks.
    pub attack_speed: Option<u32>,
    /// Length units per tick.
    pub movement_speed_value: Option<u32>,
    /// Length units.
    pub range: Option<u32>,
    pub targets: Option<Vec<TargetClass>>,
    /// Units spawned by one play.
    pub count: Option<u32>,
    /// Length units.
    pub radius: Option<u32>,
    pub levels: Vec<CardLevelStats>,
}

pub open spec fn spec_unwrap_or(o: Option<u32>, d: u32) -> u32 {
    match o {
        Some(v) => v,
        None => d,
    }
}

/// The target filter that a list of target classes stands for.
pub open spec fn spec_target_type(targets: Option<Seq<TargetClass>>) -> TargetType {
    match targets {
        None => TargetType::Both,
        Some(t) => if t.contains(TargetClass::Buildings) {
            TargetType::Buildings
        } else if t.contains(TargetClass::Air) && t.contains(TargetClass::Ground) {
            TargetType::Both
        } else if t.contains(TargetClass::Air) {
            TargetType::Air
        } else {
            TargetType::Ground
        },
    }
}

/// Whether `t` lists `c`.
fn lists(t: &Vec<TargetClass>, c: TargetClass) -> (r: bool)
    ensures
        r == t@.contains(c),
{
    let mut i: usize = 0;
    while i < t.len()
        invariant
            i <= t@.len(),
            forall|k: int| 0 <= k < i ==> t@[k] != c,
        decreases t@.len() - i,
    {
        if t[i] == c {
            return true;
        }
        i = i + 1;
    }
    false
}

impl Card {
    pub open spec fn spec_targets(&self) -> Option<Seq<TargetClass>> {
        match self.targets {
            Some(t) => Some(t@),
            None => None,
        }
    }

    /// The index of the first level row for `level`.
    pub open spec fn has_level(&self, level: u32) -> bool {
        exists|k: int| 0 <= k < self.levels@.len() && #[trigger] self.levels@[k].level == level
    }

    /// The first level row for `level`.
    pub open spec fn first_level_row(&self, level: u32) -> CardLevelStats {
        let k = choose|k: int|
            0 <= k < self.levels@.len() && #[trigger] self.levels@[k].level == level && forall|m: int|
                0 <= m < k ==> self.levels@[m].level != level;
        self.levels@[k]
    }

    /// The troop stats this card spawns with the level row `stats`.
    pub open spec fn spec_troop_data(&self, stats: CardLevelStats) -> TroopData {
        let range = spec_unwrap_or(self.range, DEFAULT_TROOP_RANGE);
        TroopData {
            base_hp: spec_unwrap_or(stats.hp, DEFAULT_TROOP_HP),
            damage: spec_unwrap_or(stats.damage, DEFAULT_TROOP_DAMAGE),
            range,
            attack_speed: spec_unwrap_or(self.attack_speed, DEFAULT_ATTACK_INTERVAL),
            movement_speed: spec_unwrap_or(self.movement_speed_value, DEFAULT_MOVEMENT_SPEED),
            target_type: spec_target_type(self.spec_targets()),
            is_ranged: range > MELEE_RANGE_LIMIT,
        }
    }

    /// Number of units one play spawns.
    pub open spec fn spec_count(&self) -> u32 {
        spec_unwrap_or(self.count, 1)
    }

    /// The stats row for `level`: the first one listed, if any.
    pub fn get_level_stats(&self, level: u32) -> (r: Option<CardLevelStats>)
        ensures
            r is Some <==> self.has_level(level),
            r is Some ==> r->0 == self.first_level_row(level),
    {
        let mut i: usize = 0;
        while i < self.levels.len()
            invariant
                i <= self.levels@.len(),
                forall|m: int| 0 <= m < i ==> self.levels@[m].level != level,
            decreases self.levels@.len() - i,
        {
            if self.levels[i].level == level {
                let ghost k = i as int;
                proof {
                    let c = choose|k: int|
                        0 <= k < self.levels@.len() && #[trigger] self.levels@[k].level == level
                            && forall|m: int| 0 <= m < k ==> self.levels@[m].level != level;
                    if c < k {
                    } else if c > k {
                        assert(self.levels@[k].level == level);
                    }
                }
                return Some(self.levels[i]);
            }
            i = i + 1;
        }
        None
    }

    /// The target filter of the units this card spawns.
    pub fn get_target_type(&self) -> (r: TargetType)
        ensures
            r == spec_target_type(self.spec_targets()),
    {
        match &self.targets {
            Some(t) => {
                let has_air = lists(t, TargetClass::Air);
                let has_ground = lists(t, TargetClass::Ground);
                let has_buildings = lists(t, TargetClass::Buildings);
                if has_buildings {
                    TargetType::Buildings
                } else if has_air && has_ground {
                    TargetType::Both
                } else if has_air {
                    TargetType::Air
                } else {
                    TargetType::Ground
                }
            },
            None => TargetType::Both,
        }
    }

    /// The troop stats this card spawns with the level row `stats`.
    pub fn troop_data(&self, stats: CardLevelStats) -> (r: TroopData)
        ensures
            r == self.spec_troop_data(stats),
    {
        let range = match self.range {
            Some(v) => v,
            None => DEFAULT_TROOP_RANGE,
        };
        TroopData {
            base_hp: match stats.hp {
                Some(v) => v,
                None => DEFAULT_TROOP_HP,
            },
            damage: match stats.damage {
                Some(v) => v,
                None => DEFAULT_TROOP_DAMAGE,
            },
            range,
            attack_speed: match self.attack_speed {
                Some(v) => v,
                None => DEFAULT_ATTACK_INTERVAL,
            },
            movement_speed: match self.movement_speed_value {
                Some(v) => v,
                None => DEFAULT_MOVEMENT_SPEED,
            },
            target_type: self.get_target_type(),
            is_ranged: range > MELEE_RANGE_LIMIT,
        }
    }

    /// Number of units one play spawns.
    pub fn unit_count(&self) -> (r: u32)
        ensures
            r == self.spec_count(),
    {
        match self.count {
            Some(v) => v,
            None => 1,
        }
    }
}

/// `c` is the card `name` of type `ty` costing `cost` elixir units, with the
/// given card-wide stats and a single level 11 row of `hp` and `damage`.
pub open spec fn card_is(
    c: Card,
    name: Seq<char>,
    cost: u32,
    ty: CardType,
    attack_speed: Option<u32>,
    movement: Option<u32>,
    range: Option<u32>,
    targets: Seq<TargetClass>,
    count: Option<u32>,
    radius: Option<u32>,
    hp: u32,
    damage: u32,
) -> bool {
    &&& c.name@ == name
    &&& c.elixir_cost == cost
    &&& c.card_type == ty
    &&& c.attack_speed == attack_speed
    &&& c.movement_speed_value == movement
    &&& c.range == range
    &&& c.spec_targets() == Some(targets)
    &&& c.count == count
    &&& c.radius == radius
    &&& c.levels@ == seq![CardLevelStats { level: 11, hp: Some(hp), damage: Some(damage) }]
}

/// `cards` is the built-in card set: Knight, Archers, Giant, Fireball and
/// Arrows with their level 11 stats.
pub open spec fn is_builtin_set(cards: Seq<Card>) -> bool {
    &&& cards.len() == 5
    &&& card_is(cards[0], "Knight"@, 180, CardType::Troop, Some(72), Some(20), Some(1440), seq![TargetClass::Ground], Some(1), None, 1452, 167)
    &&& card_is(cards[1], "Archers"@, 180, CardType::Troop, Some(72), Some(20), Some(6000), seq![TargetClass::Air, TargetClass::Ground], Some(2), None, 252, 100)
    &&& card_is(cards[2], "Giant"@, 300, CardType::Troop, Some(90), Some(15), Some(1440), seq![TargetClass::Buildings], Some(1), None, 3275, 211)
    &&& card_is(cards[3], "Fireball"@, 240, CardType::Spell, None, None, None, seq![TargetClass::Air, TargetClass::Ground], None, Some(3000), 0, 572)
    &&& card_is(cards[4], "Arrows"@, 180, CardType::Spell, None, None, None, seq![TargetClass::Air, TargetClass::Ground], None, Some(4800), 0, 144)
}

fn classes(a: TargetClass, b: Option<TargetClass>) -> (r: Vec<TargetClass>)
    ensures
        r@ == match b {
            Some(x) => seq![a, x],
            None => seq![a],
        },
{
    let mut v: Vec<TargetClass> = Vec::new();
    v.push(a);
    match b {
        Some(x) => v.push(x),
        None => {},
    }
    assert(v@ =~= match b {
        Some(x) => seq![a, x],
        None => seq![a],
    });
    v
}

fn level_11(hp: u32, damage: u32) -> (r: Vec<CardLevelStats>)
    ensures
        r@ == seq![CardLevelStats { level: 11, hp: Some(hp), damage: Some(damage) }],
{
    let v = vec![CardLevelStats { level: 11, hp: Some(hp), damage: Some(damage) }];
    assert(v@ =~= seq![CardLevelStats { level: 11, hp: Some(hp), damage: Some(damage) }]);
    v
}

/// The built-in card set: Knight, Archers, Giant, Fireball and Arrows, each
/// with its level 11 stats.
pub fn get_test_cards() -> (r: Vec<Card>)
    ensures
        is_builtin_set(r@),
{
    proof {
        reveal_strlit("Knight");
        reveal_strlit("Archers");
        reveal_strlit("Giant");
        reveal_strlit("Fireball");
        reveal_strlit("Arrows");
    }
    let mut cards: Vec<Card> = Vec::new();
    cards.push(Card {
        name: String::from_str("Knight"),
        elixir_cost: 180,
        rarity: Rarity::Common,
        card_type: CardType::Troop,
        attack_speed: Some(72),
        movement_speed_value: Some(20),
        range: Some(1440),
        targets: Some(classes(TargetClass::Ground, None)),
        count: Some(1),
        radius: None,
        levels: level_11(1452, 167),
    });
    cards.push(Card {
        name: String::from_str("Archers"),
        elixir_cost: 180,
        rarity: Rarity::Common,
        card_type: CardType::Troop,
        attack_speed: Some(72),
        movement_speed_value: Some(20),
        range: Some(6000),
        targets: Some(classes(TargetClass::Air, Some(TargetClass::Ground))),
        count: Some(2),
        radius: None,
        levels: level_11(252, 100),
    });
    cards.push(Card {
        name: String::from_str("Giant"),
        elixir_cost: 300,
        rarity: Rarity::Rare,
        card_type: CardType::Troop,
        attack_speed: Some(90),
        movement_speed_value: Some(15),
        range: Some(1440),
        targets: Some(classes(TargetClass::Buildings, None)),
        count: Some(1),
        radius: None,
        levels: level_11(3275, 211),
    });
    cards.push(Card {
        name: String::from_str("Fireball"),
        elixir_cost: 240,
        rarity: Rarity::Rare,
        card_type: CardType::Spell,
        attack_speed: None,
        movement_speed_value: None,
        range: None,
        targets: Some(classes(TargetClass::Air, Some(TargetClass::Ground))),
        count: None,
        radius: Some(3000),
        levels: level_11(0, 572),
    });
    cards.push(Card {
        name: String::from_str("Arrows"),
        elixir_cost: 180,
        rarity: Rarity::Common,
        card_type: CardType::Spell,
        attack_speed: None,
        movement_speed_value: None,
        range: None,
        targets: Some(classes(TargetClass::Air, Some(TargetClass::Ground))),
        count: None,
        radius: Some(4800),
        levels: level_11(0, 144),
    });
    cards
}

} // verus!
