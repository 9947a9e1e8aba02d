//! Weapons, projectiles and damage.

use crate::fixed::{
    clamp_wide, cos, cos_of, lemma_cos_bounds, lemma_scaled_bounds, lemma_sin_bounds, mul_scaled,
    per_tick, rate_per_tick, scaled, sin, sin_of, LIMIT, SCALE, TICK,
};
use crate::ids::{fresh_id, RANDOM_VERSION, VERSION_BITS};
use crate::physics::{moved, within, within_reach};
use crate::protocol::ShipType;
use vstd::prelude::*;

verus! {

/// What a ship class's weapon can do.
#[derive(Debug, Clone, Copy, PartialEq, Eq, Structural)]
pub struct WeaponStats {
    /// Damage of one hit.
    pub damage: i64,
    /// Speed of a projectile.
    pub projectile_speed: i64,
    /// Time between two shots.
    pub cooldown: i64,
    /// Time that a projectile flies.
    pub projectile_lifetime: i64,
    /// Radius of a projectile's hitbox.
    pub projectile_radius: i64,
}

impl WeaponStats {
    /// The stats are within the ranges that the simulation computes on.
    pub open spec fn wf(self) -> bool {
        &&& 0 <= self.damage <= LIMIT
        &&& 0 <= self.projectile_speed <= LIMIT
        &&& 0 <= self.cooldown <= LIMIT
        &&& 0 < self.projectile_lifetime <= LIMIT
        &&& 0 <= self.projectile_radius <= LIMIT
    }

    /// The weapon of each ship class.
    pub open spec fn of(ship_type: ShipType) -> WeaponStats {
        match ship_type {
            ShipType::Scout => WeaponStats {
                damage: (8 * SCALE) as i64,
                projectile_speed: (600 * SCALE) as i64,
                cooldown: 450,
                projectile_lifetime: 4500,
                projectile_radius: (3 * SCALE) as i64,
            },
            ShipType::Fighter => WeaponStats {
                damage: (12 * SCALE) as i64,
                projectile_speed: (500 * SCALE) as i64,
                cooldown: 750,
                projectile_lifetime: (2 * SCALE) as i64,
                projectile_radius: (4 * SCALE) as i64,
            },
            ShipType::Cruiser => WeaponStats {
                damage: (15 * SCALE) as i64,
                projectile_speed: (400 * SCALE) as i64,
                cooldown: 1200,
                projectile_lifetime: 7500,
                projectile_radius: (5 * SCALE) as i64,
            },
            ShipType::Destroyer => WeaponStats {
                damage: (25 * SCALE) as i64,
                projectile_speed: (350 * SCALE) as i64,
                cooldown: 1800,
                projectile_lifetime: (3 * SCALE) as i64,
                projectile_radius: (8 * SCALE) as i64,
            },
        }
    }

    /// The weapon of a ship class.
    pub fn for_type(ship_type: ShipType) -> (stats: WeaponStats)
        ensures
            stats == WeaponStats::of(ship_type),
            stats.wf(),
    {
        match ship_type {
            ShipType::Scout => WeaponStats {
                damage: 8 * SCALE,
                projectile_speed: 600 * SCALE,
                cooldown: 450,
                projectile_lifetime: 4500,
                projectile_radius: 3 * SCALE,
            },
            ShipType::Fighter => WeaponStats {
                damage: 12 * SCALE,
                projectile_speed: 500 * SCALE,
                cooldown: 750,
                projectile_lifetime: 2 * SCALE,
                projectile_radius: 4 * SCALE,
            },
            ShipType::Cruiser => WeaponStats {
                damage: 15 * SCALE,
                projectile_speed: 400 * SCALE,
                cooldown: 1200,
                projectile_lifetime: 7500,
                projectile_radius: 5 * SCALE,
            },
            ShipType::Destroyer => WeaponStats {
                damage: 25 * SCALE,
                projectile_speed: 350 * SCALE,
                cooldown: 1800,
                projectile_lifetime: 3 * SCALE,
                projectile_radius: 8 * SCALE,
            },
        }
    }
}

/// Every ship class has weapon stats within the simulation's ranges.
pub proof fn lemma_class_weapon_wf(ship_type: ShipType)
    ensures
        WeaponStats::of(ship_type).wf(),
{
}

/// A projectile in flight.
#[derive(Debug, Clone, Copy, PartialEq, Eq, Structural)]
pub struct Projectile {
    pub id: u128,
    pub owner_id: u128,
    pub x: i64,
    pub y: i64,
    pub vel_x: i64,
    pub vel_y: i64,
    pub damage: i64,
    pub radius: i64,
    pub lifetime_remaining: i64,
}

impl Projectile {
    /// A projectile in flight inside the world.
    pub open spec fn wf(self) -> bool {
        &&& -LIMIT <= self.x <= LIMIT
        &&& -LIMIT <= self.y <= LIMIT
        &&& -LIMIT <= self.vel_x <= LIMIT
        &&& -LIMIT <= self.vel_y <= LIMIT
        &&& 0 <= self.damage <= LIMIT
        &&& 0 <= self.radius <= LIMIT
        &&& 0 < self.lifetime_remaining <= LIMIT
    }

    /// The projectile `id` that `owner_id` fires from `(x, y)` in
    /// `direction`: it flies at the weapon's projectile speed and carries
    /// the weapon's damage, radius and lifetime.
    pub open spec fn launched(
        id: u128,
        owner_id: u128,
        x: i64,
        y: i64,
        direction: i64,
        stats: WeaponStats,
    ) -> Projectile {
        Projectile {
            id,
            owner_id,
            x,
            y,
            vel_x: scaled(stats.projectile_speed as int, cos_of(direction as int)) as i64,
            vel_y: scaled(stats.projectile_speed as int, sin_of(direction as int)) as i64,
            damage: stats.damage,
            radius: stats.projectile_radius,
            lifetime_remaining: stats.projectile_lifetime,
        }
    }

    /// The projectile one tick later.
    pub open spec fn advanced(self) -> Projectile {
        Projectile {
            x: moved(self.x as int, self.vel_x as int) as i64,
            y: moved(self.y as int, self.vel_y as int) as i64,
            lifetime_remaining: (self.lifetime_remaining - TICK) as i64,
            ..self
        }
    }

    /// The projectile touches a target of radius `target_radius` at
    /// `(target_x, target_y)`.
    pub open spec fn touches(self, target_x: int, target_y: int, target_radius: int) -> bool {
        within(self.x as int, self.y as int, target_x, target_y, self.radius + target_radius)
    }

    /// Fires a projectile with a fresh random identifier.
    pub fn new(owner_id: u128, x: i64, y: i64, direction: i64, stats: &WeaponStats) -> (p: Projectile)
        requires
            stats.wf(),
            -LIMIT <= x <= LIMIT,
            -LIMIT <= y <= LIMIT,
        ensures
            p == Projectile::launched(p.id, owner_id, x, y, direction, *stats),
            p.id & VERSION_BITS == RANDOM_VERSION,
            p.wf(),
    {
        Projectile::with_id(fresh_id(), owner_id, x, y, direction, stats)
    }

    /// Fires the projectile `id`.
    pub fn with_id(id: u128, owner_id: u128, x: i64, y: i64, direction: i64, stats: &WeaponStats) -> (p:
        Projectile)
        requires
            stats.wf(),
            -LIMIT <= x <= LIMIT,
            -LIMIT <= y <= LIMIT,
        ensures
            p == Projectile::launched(id, owner_id, x, y, direction, *stats),
            p.wf(),
    {
        proof {
            lemma_cos_bounds(direction as int);
            lemma_sin_bounds(direction as int);
            lemma_scaled_bounds(stats.projectile_speed as int, cos_of(direction as int));
            lemma_scaled_bounds(stats.projectile_speed as int, sin_of(direction as int));
        }
        Projectile {
            id,
            owner_id,
            x,
            y,
            vel_x: mul_scaled(stats.projectile_speed, cos(direction)),
            vel_y: mul_scaled(stats.projectile_speed, sin(direction)),
            damage: stats.damage,
            radius: stats.projectile_radius,
            lifetime_remaining: stats.projectile_lifetime,
        }
    }

    /// Moves the projectile by one tick and takes the tick off its
    /// lifetime; returns whether it is still in flight.
    pub fn update(&mut self) -> (in_flight: bool)
        requires
            old(self).wf(),
        ensures
            *final(self) == old(self).advanced(),
            in_flight == (final(self).lifetime_remaining > 0),
            in_flight ==> final(self).wf(),
    {
        self.x = clamp_wide(self.x as i128 + rate_per_tick(self.vel_x) as i128, -LIMIT, LIMIT);
        self.y = clamp_wide(self.y as i128 + rate_per_tick(self.vel_y) as i128, -LIMIT, LIMIT);
        self.lifetime_remaining = self.lifetime_remaining - TICK;
        self.lifetime_remaining > 0
    }

    /// Whether the projectile touches the target: their centres are no
    /// further apart than the sum of their radii.
    pub fn check_hit(&self, target_x: i64, target_y: i64, target_radius: i64) -> (hit: bool)
        requires
            i64::MIN <= self.radius + target_radius <= i64::MAX,
        ensures
            hit == self.touches(target_x as int, target_y as int, target_radius as int),
    {
        within_reach(self.x, self.y, target_x, target_y, self.radius + target_radius)
    }
}

/// Health that is left of `health` after `damage`, never below zero.
pub open spec fn health_after(health: int, damage: int) -> int {
    if health - damage > 0 {
        health - damage
    } else {
        0
    }
}

/// A weapon's cooldown one tick later.
pub open spec fn cooled(cooldown: int) -> int {
    if cooldown - TICK > 0 {
        cooldown - TICK
    } else {
        0
    }
}

/// The rules of weapons and damage.
pub struct CombatSystem;

impl CombatSystem {
    /// A weapon can fire once its cooldown has run out.
    pub fn can_fire(weapon_cooldown: i64) -> (ready: bool)
        ensures
            ready == (weapon_cooldown <= 0),
    {
        weapon_cooldown <= 0
    }

    /// Takes one tick off a cooldown, down to zero.
    pub fn update_cooldown(cooldown: i64) -> (c: i64)
        ensures
            c == cooled(cooldown as int),
            c >= 0,
    {
        if cooldown > TICK {
            cooldown - TICK
        } else {
            0
        }
    }

    /// The cooldown that a weapon starts after a shot.
    pub fn fire_cooldown(stats: &WeaponStats) -> (c: i64)
        ensures
            c == stats.cooldown,
    {
        stats.cooldown
    }

    /// Damage of a hit; the modifier has no effect yet.
    pub fn calculate_damage(base_damage: i64, _modifier: i64) -> (d: i64)
        ensures
            d == base_damage,
    {
        base_damage
    }

    /// Takes `damage` off `current_health` and returns the health that is
    /// left and whether none is.
    pub fn apply_damage(current_health: i64, damage: i64) -> (r: (i64, bool))
        requires
            current_health - damage <= i64::MAX,
        ensures
            r.0 == health_after(current_health as int, damage as int),
            r.1 == (r.0 == 0),
    {
        let left: i128 = current_health as i128 - damage as i128;
        if left > 0 {
            (left as i64, false)
        } else {
            (0, true)
        }
    }

    /// Damage that the zone deals in one tick at `damage_per_second`.
    pub fn zone_damage(damage_per_second: i64) -> (d: i64)
        ensures
            d == per_tick(damage_per_second as int),
    {
        rate_per_tick(damage_per_second)
    }
}

/// A projectile that struck a ship.
#[derive(Debug, Clone, Copy, PartialEq, Eq, Structural)]
pub struct HitResult {
    pub projectile_id: u128,
    pub shooter_id: u128,
    pub target_id: u128,
    pub damage: i64,
    pub x: i64,
    pub y: i64,
    pub target_killed: bool,
}

} // verus!
