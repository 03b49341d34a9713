//! Entities of the arena: towers, troops, projectiles and spells.
//!
//! Lengths are in length units (see `geometry::UNITS_PER_TILE`), durations in
//! ticks, speeds in length units per tick.
use vstd::prelude::*;
use crate::geometry::{PlayerId, Position, Velocity};

verus! {

/// Collision radius of a troop (0.4 tiles).
pub const TROOP_RADIUS: u32 = 480;
/// Collision radius of a projectile (0.1 tiles).
pub const PROJECTILE_RADIUS: u32 = 120;
/// Nominal radius of a tower (1.5 tiles); its footprint is a rectangle.
pub const TOWER_RADIUS: u32 = 1800;
/// Half width and half height of a tower's rectangular footprint (2 tiles).
pub const TOWER_HALF_EXTENT: u32 = 2400;
/// Health of a projectile or a spell effect.
pub const EFFECT_HP: u32 = 1;
/// Interval of an entity that does not attack (one second).
pub const IDLE_ATTACK_INTERVAL: u32 = 60;

/// Which entities an attacker may pick as a target.
#[derive(Debug, Clone, Copy, PartialEq, Eq, Structural)]
pub enum TargetType {
    Ground,
    Air,
    Both,
    Buildings,
}

/// Collision geometry of an entity.
#[derive(Debug, Clone, Copy, PartialEq, Eq, Structural)]
pub enum CollisionShape {
    Circle { radius: u32 },
    Rectangle { half_width: u32, half_height: u32 },
    NoCollision,
}

#[derive(Debug, Clone, Copy, PartialEq, Eq, Structural)]
pub struct TowerData {
    pub base_hp: u32,
    pub damage: u32,
    pub range: u32,
    /// Ticks between two attacks.
    pub attack_speed: u32,
}

#[derive(Debug, Clone, Copy, PartialEq, Eq, Structural)]
pub struct TroopData {
    pub base_hp: u32,
    pub damage: u32,
    pub range: u32,
    /// Ticks between two attacks.
    pub attack_speed: u32,
    /// Length units per tick.
    pub movement_speed: u32,
    pub target_type: TargetType,
    /// Attacks by launching a projectile rather than striking at once.
    pub is_ranged: bool,
}

#[derive(Debug, Clone, Copy, PartialEq, Eq, Structural)]
pub struct ProjectileData {
    pub damage: u32,
    /// Length units per tick.
    pub speed: u32,
    /// The entity the projectile is locked on.
    pub target_id: Option<u32>,
}

#[derive(Debug, Clone, Copy, PartialEq, Eq, Structural)]
pub struct SpellData {
    pub damage: u32,
    pub radius: u32,
    /// Ticks.
    pub duration: u32,
}

/// The kind of an entity, with the stats of that kind.
#[derive(Debug, Clone, Copy, PartialEq, Eq, Structural)]
pub enum EntityKind {
    Tower(TowerData),
    Troop(TroopData),
    Projectile(ProjectileData),
    Spell(SpellData),
}

impl EntityKind {
    pub open spec fn spec_base_hp(self) -> u32 {
        match self {
            EntityKind::Tower(d) => d.base_hp,
            EntityKind::Troop(d) => d.base_hp,
            EntityKind::Projectile(_) => EFFECT_HP,
            EntityKind::Spell(_) => EFFECT_HP,
        }
    }

    pub fn base_hp(&self) -> (r: u32)
        ensures
            r == self.spec_base_hp(),
    {
        match self {
            EntityKind::Tower(d) => d.base_hp,
            EntityKind::Troop(d) => d.base_hp,
            EntityKind::Projectile(_) => EFFECT_HP,
            EntityKind::Spell(_) => EFFECT_HP,
        }
    }
}

/// An entity in the arena.
#[derive(Debug, Clone, Copy, PartialEq, Eq, Structural)]
pub struct Entity {
    pub owner: PlayerId,
    pub position: Position,
    pub velocity: Velocity,
    pub hp: u32,
    pub max_hp: u32,
    pub kind: EntityKind,
    /// Ticks until the next attack; 0 means ready.
    pub attack_cooldown: u32,
    /// Identifier of the current target, if any.
    pub target: Option<u32>,
}

impl Entity {
    /// Health never exceeds the maximum.
    pub open spec fn wf(self) -> bool {
        self.hp <= self.max_hp
    }

    pub open spec fn spec_is_alive(self) -> bool {
        self.hp > 0
    }

    pub open spec fn spec_attack_range(self) -> u32 {
        match self.kind {
            EntityKind::Tower(d) => d.range,
            EntityKind::Troop(d) => d.range,
            _ => 0,
        }
    }

    pub open spec fn spec_damage(self) -> u32 {
        match self.kind {
            EntityKind::Tower(d) => d.damage,
            EntityKind::Troop(d) => d.damage,
            EntityKind::Projectile(d) => d.damage,
            EntityKind::Spell(d) => d.damage,
        }
    }

    pub open spec fn spec_attack_speed(self) -> u32 {
        match self.kind {
            EntityKind::Tower(d) => d.attack_speed,
            EntityKind::Troop(d) => d.attack_speed,
            _ => IDLE_ATTACK_INTERVAL,
        }
    }

    pub open spec fn spec_can_attack(self) -> bool {
        self.kind is Tower || self.kind is Troop
    }

    pub open spec fn spec_target_type(self) -> Option<TargetType> {
        match self.kind {
            EntityKind::Troop(d) => Some(d.target_type),
            _ => None,
        }
    }

    pub open spec fn spec_movement_speed(self) -> u32 {
        match self.kind {
            EntityKind::Troop(d) => d.movement_speed,
            _ => 0,
        }
    }

    pub open spec fn spec_can_move(self) -> bool {
        self.kind is Troop
    }

    pub open spec fn spec_radius(self) -> u32 {
        match self.kind {
            EntityKind::Tower(_) => TOWER_RADIUS,
            EntityKind::Troop(_) => TROOP_RADIUS,
            EntityKind::Projectile(_) => PROJECTILE_RADIUS,
            EntityKind::Spell(_) => 0,
        }
    }

    pub open spec fn spec_collision_shape(self) -> CollisionShape {
        match self.kind {
            EntityKind::Tower(_) => CollisionShape::Rectangle {
                half_width: TOWER_HALF_EXTENT,
                half_height: TOWER_HALF_EXTENT,
            },
            EntityKind::Troop(_) => CollisionShape::Circle { radius: TROOP_RADIUS },
            EntityKind::Projectile(_) => CollisionShape::Circle { radius: PROJECTILE_RADIUS },
            EntityKind::Spell(_) => CollisionShape::NoCollision,
        }
    }

    pub open spec fn spec_is_ranged(self) -> bool {
        match self.kind {
            EntityKind::Troop(d) => d.is_ranged,
            EntityKind::Tower(_) => true,
            _ => false,
        }
    }

    /// A fresh entity of `kind` at full health, idle and ready to attack.
    pub fn new(owner: PlayerId, position: Position, kind: EntityKind) -> (r: Entity)
        ensures
            r.wf(),
            r.owner == owner,
            r.position == position,
            r.velocity == (Velocity { x: 0, y: 0 }),
            r.hp == kind.spec_base_hp(),
            r.max_hp == kind.spec_base_hp(),
            r.kind == kind,
            r.attack_cooldown == 0,
            r.target is None,
    {
        let max_hp = kind.base_hp();
        Entity {
            owner,
            position,
            velocity: Velocity::zero(),
            hp: max_hp,
            max_hp,
            kind,
            attack_cooldown: 0,
            target: None,
        }
    }

    pub fn is_alive(&self) -> (r: bool)
        ensures
            r == self.spec_is_alive(),
    {
        self.hp > 0
    }

    /// Lowers health by `amount`, stopping at zero.
    pub fn take_damage(&mut self, amount: u32)
        ensures
            final(self).hp == if old(self).hp >= amount { old(self).hp - amount } else { 0 },
            *final(self) == (Entity { hp: final(self).hp, ..*old(self) }),
    {
        self.hp = if self.hp >= amount { self.hp - amount } else { 0 };
    }

    pub fn attack_range(&self) -> (r: u32)
        ensures
            r == self.spec_attack_range(),
    {
        match &self.kind {
            EntityKind::Tower(d) => d.range,
            EntityKind::Troop(d) => d.range,
            _ => 0,
        }
    }

    pub fn damage(&self) -> (r: u32)
        ensures
            r == self.spec_damage(),
    {
        match &self.kind {
            EntityKind::Tower(d) => d.damage,
            EntityKind::Troop(d) => d.damage,
            EntityKind::Projectile(d) => d.damage,
            EntityKind::Spell(d) => d.damage,
        }
    }

    /// Ticks between two attacks.
    pub fn attack_speed(&self) -> (r: u32)
        ensures
            r == self.spec_attack_speed(),
    {
        match &self.kind {
            EntityKind::Tower(d) => d.attack_speed,
            EntityKind::Troop(d) => d.attack_speed,
            _ => IDLE_ATTACK_INTERVAL,
        }
    }

    pub fn can_attack(&self) -> (r: bool)
        ensures
            r == self.spec_can_attack(),
    {
        match &self.kind {
            EntityKind::Tower(_) => true,
            EntityKind::Troop(_) => true,
            _ => false,
        }
    }

    pub fn target_type(&self) -> (r: Option<TargetType>)
        ensures
            r == self.spec_target_type(),
    {
        match &self.kind {
            EntityKind::Troop(d) => Some(d.target_type),
            _ => None,
        }
    }

    pub fn movement_speed(&self) -> (r: u32)
        ensures
            r == self.spec_movement_speed(),
    {
        match &self.kind {
            EntityKind::Troop(d) => d.movement_speed,
            _ => 0,
        }
    }

    pub fn can_move(&self) -> (r: bool)
        ensures
            r == self.spec_can_move(),
    {
        match &self.kind {
            EntityKind::Troop(_) => true,
            _ => false,
        }
    }

    pub fn radius(&self) -> (r: u32)
        ensures
            r == self.spec_radius(),
    {
        match &self.kind {
            EntityKind::Tower(_) => TOWER_RADIUS,
            EntityKind::Troop(_) => TROOP_RADIUS,
            EntityKind::Projectile(_) => PROJECTILE_RADIUS,
            EntityKind::Spell(_) => 0,
        }
    }

    pub fn collision_shape(&self) -> (r: CollisionShape)
        ensures
            r == self.spec_collision_shape(),
    {
        match &self.kind {
            EntityKind::Tower(_) => CollisionShape::Rectangle {
                half_width: TOWER_HALF_EXTENT,
                half_height: TOWER_HALF_EXTENT,
            },
            EntityKind::Troop(_) => CollisionShape::Circle { radius: TROOP_RADIUS },
            EntityKind::Projectile(_) => CollisionShape::Circle { radius: PROJECTILE_RADIUS },
            EntityKind::Spell(_) => CollisionShape::NoCollision,
        }
    }

    pub fn is_ranged(&self) -> (r: bool)
        ensures
            r == self.spec_is_ranged(),
    {
        match &self.kind {
            EntityKind::Troop(d) => d.is_ranged,
            EntityKind::Tower(_) => true,
            _ => false,
        }
    }
}

} // verus!
