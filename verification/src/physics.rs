//! Ship movement, ship-to-ship collisions and the zone test.

use crate::fixed::{
    clamp, clamp_to, clamp_wide, cos, cos_of, div_round, div_toward_zero, isqrt, isqrt_ceil,
    lemma_div_toward_zero_bounds, lemma_sqrt_ceil, mul_scaled, per_tick, rate_per_tick, scaled,
    sin, sin_of, sqrt_ceil, sqrt_floor, wrap_angle, wrap_wide, LIMIT, SCALE, TAU,
};
use crate::protocol::ShipType;
use vstd::prelude::*;

verus! {

/// What a ship class can do.
#[derive(Debug, Clone, Copy, PartialEq, Eq, Structural)]
pub struct ShipStats {
    /// Greatest speed.
    pub max_speed: i64,
    /// Acceleration at full throttle.
    pub acceleration: i64,
    /// Share of the velocity that is left after one tick.
    pub drag: i64,
    /// Turn rate at full steer, in radians per second.
    pub turn_rate: i64,
    /// Health of an undamaged ship.
    pub max_health: i64,
    /// Radius of the ship's hitbox.
    pub hitbox_radius: i64,
}

impl ShipStats {
    /// The stats are within the ranges that the simulation computes on.
    pub open spec fn wf(self) -> bool {
        &&& 0 <= self.max_speed <= LIMIT
        &&& 0 <= self.acceleration <= LIMIT
        &&& 0 <= self.drag <= SCALE
        &&& 0 <= self.turn_rate <= LIMIT
        &&& 0 < self.max_health <= LIMIT
        &&& 0 <= self.hitbox_radius <= LIMIT
    }

    /// The stats of each ship class.
    pub open spec fn of(ship_type: ShipType) -> ShipStats {
        match ship_type {
            ShipType::Scout => ShipStats {
                max_speed: (400 * SCALE) as i64,
                acceleration: (300 * SCALE) as i64,
                drag: 2850,
                turn_rate: (4 * SCALE) as i64,
                max_health: (60 * SCALE) as i64,
                hitbox_radius: (15 * SCALE) as i64,
            },
            ShipType::Fighter => ShipStats {
                max_speed: (300 * SCALE) as i64,
                acceleration: (250 * SCALE) as i64,
                drag: 2790,
                turn_rate: (3 * SCALE) as i64,
                max_health: (100 * SCALE) as i64,
                hitbox_radius: (20 * SCALE) as i64,
            },
            ShipType::Cruiser => ShipStats {
                max_speed: (200 * SCALE) as i64,
                acceleration: (150 * SCALE) as i64,
                drag: 2700,
                turn_rate: (2 * SCALE) as i64,
                max_health: (150 * SCALE) as i64,
                hitbox_radius: (30 * SCALE) as i64,
            },
            ShipType::Destroyer => ShipStats {
                max_speed: (180 * SCALE) as i64,
                acceleration: (120 * SCALE) as i64,
                drag: 2640,
                turn_rate: 4500,
                max_health: (120 * SCALE) as i64,
                hitbox_radius: (35 * SCALE) as i64,
            },
        }
    }

    /// The stats of a ship class.
    pub fn for_type(ship_type: ShipType) -> (stats: ShipStats)
        ensures
            stats == ShipStats::of(ship_type),
            stats.wf(),
    {
        match ship_type {
            ShipType::Scout => ShipStats {
                max_speed: 400 * SCALE,
                acceleration: 300 * SCALE,
                drag: 2850,
                turn_rate: 4 * SCALE,
                max_health: 60 * SCALE,
                hitbox_radius: 15 * SCALE,
            },
            ShipType::Fighter => ShipStats {
                max_speed: 300 * SCALE,
                acceleration: 250 * SCALE,
                drag: 2790,
                turn_rate: 3 * SCALE,
                max_health: 100 * SCALE,
                hitbox_radius: 20 * SCALE,
            },
            ShipType::Cruiser => ShipStats {
                max_speed: 200 * SCALE,
                acceleration: 150 * SCALE,
                drag: 2700,
                turn_rate: 2 * SCALE,
                max_health: 150 * SCALE,
                hitbox_radius: 30 * SCALE,
            },
            ShipType::Destroyer => ShipStats {
                max_speed: 180 * SCALE,
                acceleration: 120 * SCALE,
                drag: 2640,
                turn_rate: 4500,
                max_health: 120 * SCALE,
                hitbox_radius: 35 * SCALE,
            },
        }
    }
}

/// Every ship class has stats within the simulation's ranges.
pub proof fn lemma_class_stats_wf(ship_type: ShipType)
    ensures
        ShipStats::of(ship_type).wf(),
{
}

/// The heading after one tick of steering.
pub open spec fn turned(rotation: int, steer: int, stats: ShipStats) -> int {
    wrap_angle(
        rotation + per_tick(scaled(stats.turn_rate as int, clamp(steer, -SCALE as int, SCALE as int))),
    )
}

/// Acceleration that the throttle asks for; reverse runs at half power.
pub open spec fn thrust_power(throttle: int, stats: ShipStats) -> int {
    let t = clamp(throttle, -SCALE as int, SCALE as int);
    if t >= 0 {
        scaled(stats.acceleration as int, t)
    } else {
        div_toward_zero(stats.acceleration * t, 2 * SCALE)
    }
}

/// One velocity component after thrust along `direction` (the heading's
/// cosine or sine) and drag.
pub open spec fn pushed(vel: int, direction: int, power: int, stats: ShipStats) -> int {
    scaled(vel + per_tick(scaled(power, direction)), stats.drag as int)
}

/// Velocity `(vx, vy)` cut down to `max_speed` where it is faster.
pub open spec fn limit_speed(vx: int, vy: int, max_speed: int) -> (int, int) {
    let n = vx * vx + vy * vy;
    if n > max_speed * max_speed {
        let s = sqrt_ceil(n);
        (div_toward_zero(vx * max_speed, s), div_toward_zero(vy * max_speed, s))
    } else {
        (vx, vy)
    }
}

/// A coordinate moved by one tick at velocity `vel`; the world ends at
/// `LIMIT` on every side.
pub open spec fn moved(pos: int, vel: int) -> int {
    clamp(pos + per_tick(vel), -LIMIT as int, LIMIT as int)
}

/// Ships closer together than this count as being in the same place.
pub const COINCIDENT: i64 = 3;

/// Extra distance by which colliding ships are pushed apart.
pub const SEPARATION_MARGIN: i64 = 300;

/// The points `(ax, ay)` and `(bx, by)` are at most `reach` apart.
pub open spec fn within(ax: int, ay: int, bx: int, by: int, reach: int) -> bool {
    (ax - bx) * (ax - bx) + (ay - by) * (ay - by) <= reach * reach
}

/// A coordinate held inside the world.
pub open spec fn in_world(pos: int) -> int {
    clamp(pos, -LIMIT as int, LIMIT as int)
}

/// Where two overlapping ships stand after being pushed apart, as
/// `((x1, y1), (x2, y2))`.
///
/// Ships in the same place are moved apart along the x axis by their radii.
/// Otherwise each moves away from the other along the line that joins
/// them, by half the overlap and a margin. Ships that do not overlap stay.
pub open spec fn separated(x1: int, y1: int, radius1: int, x2: int, y2: int, radius2: int) -> (
    (int, int),
    (int, int),
) {
    let dx = x2 - x1;
    let dy = y2 - y1;
    let dist = sqrt_floor(dx * dx + dy * dy);
    let overlap = radius1 + radius2 - dist;
    if dist < COINCIDENT {
        ((in_world(x1 - radius1), y1), (in_world(x2 + radius2), y2))
    } else if overlap <= 0 {
        ((x1, y1), (x2, y2))
    } else {
        let push = overlap / 2 + SEPARATION_MARGIN;
        let px = scaled(push, div_toward_zero(dx * SCALE, dist));
        let py = scaled(push, div_toward_zero(dy * SCALE, dist));
        ((in_world(x1 - px), in_world(y1 - py)), (in_world(x2 + px), in_world(y2 + py)))
    }
}

/// State of a ship after one tick: position, heading and velocity, as
/// `(x, y, rotation, vel_x, vel_y)`.
pub open spec fn ship_step(
    x: int,
    y: int,
    rotation: int,
    vel_x: int,
    vel_y: int,
    throttle: int,
    steer: int,
    stats: ShipStats,
) -> (int, int, int, int, int) {
    let rot = turned(rotation, steer, stats);
    let power = thrust_power(throttle, stats);
    let vx = pushed(vel_x, cos_of(rot), power, stats);
    let vy = pushed(vel_y, sin_of(rot), power, stats);
    let v = limit_speed(vx, vy, stats.max_speed as int);
    (moved(x, v.0), moved(y, v.1), rot, v.0, v.1)
}

/// The kinematics of ships.
pub struct PhysicsSystem;

impl PhysicsSystem {
    /// Moves a ship by one tick under the given controls and returns
    /// `(x, y, rotation, vel_x, vel_y)`.
    ///
    /// Throttle and steer are clamped to `[-1, 1]`. The ship turns, is pushed
    /// along its new heading (at half power in reverse), loses speed to drag,
    /// is held to its class's top speed and then moves.
    pub fn update_ship(
        x: i64,
        y: i64,
        rotation: i64,
        vel_x: i64,
        vel_y: i64,
        throttle: i64,
        steer: i64,
        stats: &ShipStats,
    ) -> (r: (i64, i64, i64, i64, i64))
        requires
            stats.wf(),
            -LIMIT <= vel_x <= LIMIT,
            -LIMIT <= vel_y <= LIMIT,
        ensures
            (r.0 as int, r.1 as int, r.2 as int, r.3 as int, r.4 as int) == ship_step(
                x as int,
                y as int,
                rotation as int,
                vel_x as int,
                vel_y as int,
                throttle as int,
                steer as int,
                *stats,
            ),
            -LIMIT <= r.0 <= LIMIT,
            -LIMIT <= r.1 <= LIMIT,
            0 <= r.2 < TAU,
            r.3 * r.3 + r.4 * r.4 <= stats.max_speed * stats.max_speed,
            -stats.max_speed <= r.3 <= stats.max_speed,
            -stats.max_speed <= r.4 <= stats.max_speed,
    {
        let steer_c: i64 = clamp_to(steer, -SCALE, SCALE);
        let turn: i64 = rate_per_tick(mul_scaled(stats.turn_rate, steer_c));
        let rot: i64 = wrap_wide(rotation as i128 + turn as i128);

        let power: i64 = Self::thrust(throttle, stats);
        let vx: i64 = Self::push(vel_x, cos(rot), power, stats);
        let vy: i64 = Self::push(vel_y, sin(rot), power, stats);
        let (vx, vy) = Self::cap_speed(vx, vy, stats.max_speed);

        let new_x: i64 = clamp_wide(x as i128 + rate_per_tick(vx) as i128, -LIMIT, LIMIT);
        let new_y: i64 = clamp_wide(y as i128 + rate_per_tick(vy) as i128, -LIMIT, LIMIT);
        (new_x, new_y, rot, vx, vy)
    }

    /// Whether the point `(x, y)` lies in the zone's disc.
    pub fn is_in_zone(x: i64, y: i64, zone_center_x: i64, zone_center_y: i64, zone_radius: i64) -> (inside: bool)
        ensures
            inside == within(
                x as int,
                y as int,
                zone_center_x as int,
                zone_center_y as int,
                zone_radius as int,
            ),
    {
        within_reach(x, y, zone_center_x, zone_center_y, zone_radius)
    }

    /// Distance from the point `(x, y)` to the zone's edge, rounded down
    /// before the radius is taken off: positive outside the zone, never
    /// positive inside it.
    pub fn zone_distance(x: i64, y: i64, zone_center_x: i64, zone_center_y: i64, zone_radius: i64) -> (d: i64)
        requires
            -LIMIT <= x <= LIMIT,
            -LIMIT <= y <= LIMIT,
            -LIMIT <= zone_center_x <= LIMIT,
            -LIMIT <= zone_center_y <= LIMIT,
            -LIMIT <= zone_radius <= LIMIT,
        ensures
            d == sqrt_floor(
                (x - zone_center_x) * (x - zone_center_x) + (y - zone_center_y) * (y
                    - zone_center_y),
            ) - zone_radius,
    {
        let dist: i64 = distance(x - zone_center_x, y - zone_center_y);
        dist - zone_radius
    }

    /// Whether two ships overlap: their centres are no further apart than
    /// the sum of their radii.
    pub fn check_ship_collision(x1: i64, y1: i64, radius1: i64, x2: i64, y2: i64, radius2: i64) -> (hit: bool)
        requires
            i64::MIN <= radius1 + radius2 <= i64::MAX,
        ensures
            hit == within(x1 as int, y1 as int, x2 as int, y2 as int, radius1 + radius2),
    {
        within_reach(x1, y1, x2, y2, radius1 + radius2)
    }

    /// Pushes two ships apart and returns `((x1, y1), (x2, y2))`.
    pub fn resolve_ship_collision(x1: i64, y1: i64, radius1: i64, x2: i64, y2: i64, radius2: i64) -> (r: (
        (i64, i64),
        (i64, i64),
    ))
        requires
            -LIMIT <= x1 <= LIMIT,
            -LIMIT <= y1 <= LIMIT,
            -LIMIT <= x2 <= LIMIT,
            -LIMIT <= y2 <= LIMIT,
            0 <= radius1 <= LIMIT,
            0 <= radius2 <= LIMIT,
        ensures
            ((r.0.0 as int, r.0.1 as int), (r.1.0 as int, r.1.1 as int)) == separated(
                x1 as int,
                y1 as int,
                radius1 as int,
                x2 as int,
                y2 as int,
                radius2 as int,
            ),
            -LIMIT <= r.0.0 <= LIMIT,
            -LIMIT <= r.0.1 <= LIMIT,
            -LIMIT <= r.1.0 <= LIMIT,
            -LIMIT <= r.1.1 <= LIMIT,
    {
        let dx: i64 = x2 - x1;
        let dy: i64 = y2 - y1;
        let dist: i64 = distance(dx, dy);
        if dist < COINCIDENT {
            return (
                (clamp_to(x1 - radius1, -LIMIT, LIMIT), y1),
                (clamp_to(x2 + radius2, -LIMIT, LIMIT), y2),
            );
        }
        let overlap: i64 = radius1 + radius2 - dist;
        if overlap <= 0 {
            return ((x1, y1), (x2, y2));
        }
        let push: i64 = overlap / 2 + SEPARATION_MARGIN;
        let px: i64 = mul_scaled(push, along(dx, dist));
        let py: i64 = mul_scaled(push, along(dy, dist));
        (
            (clamp_to(x1 - px, -LIMIT, LIMIT), clamp_to(y1 - py, -LIMIT, LIMIT)),
            (clamp_to(x2 + px, -LIMIT, LIMIT), clamp_to(y2 + py, -LIMIT, LIMIT)),
        )
    }

    /// Acceleration that the throttle asks for.
    fn thrust(throttle: i64, stats: &ShipStats) -> (power: i64)
        requires
            stats.wf(),
        ensures
            power == thrust_power(throttle as int, *stats),
            -LIMIT <= power <= LIMIT,
    {
        let t: i64 = clamp_to(throttle, -SCALE, SCALE);
        if t >= 0 {
            mul_scaled(stats.acceleration, t)
        } else {
            proof {
                assert(-LIMIT * SCALE <= stats.acceleration * t <= 0) by (nonlinear_arith)
                    requires
                        0 <= stats.acceleration <= LIMIT,
                        -SCALE <= t < 0,
                ;
                lemma_div_toward_zero_bounds(stats.acceleration * t, 2 * SCALE);
            }
            let wide: i128 = (stats.acceleration as i128) * (t as i128);
            div_round(wide, 2 * SCALE as i128) as i64
        }
    }

    /// One velocity component after thrust and drag.
    fn push(vel: i64, direction: i64, power: i64, stats: &ShipStats) -> (v: i64)
        requires
            stats.wf(),
            -LIMIT <= vel <= LIMIT,
            -LIMIT <= power <= LIMIT,
            -SCALE <= direction <= SCALE,
        ensures
            v == pushed(vel as int, direction as int, power as int, *stats),
            -2 * LIMIT <= v <= 2 * LIMIT,
    {
        let gain: i64 = rate_per_tick(mul_scaled(power, direction));
        mul_scaled(vel + gain, stats.drag)
    }

    /// Cuts a velocity down to `max_speed` where it is faster.
    fn cap_speed(vx: i64, vy: i64, max_speed: i64) -> (v: (i64, i64))
        requires
            0 <= max_speed <= LIMIT,
            -2 * LIMIT <= vx <= 2 * LIMIT,
            -2 * LIMIT <= vy <= 2 * LIMIT,
        ensures
            (v.0 as int, v.1 as int) == limit_speed(vx as int, vy as int, max_speed as int),
            v.0 * v.0 + v.1 * v.1 <= max_speed * max_speed,
            -max_speed <= v.0 <= max_speed,
            -max_speed <= v.1 <= max_speed,
    {
        proof {
            lemma_limit_speed(vx as int, vy as int, max_speed as int);
            assert(0 <= vx * vx <= 4 * LIMIT * LIMIT) by (nonlinear_arith)
                requires
                    -2 * LIMIT <= vx <= 2 * LIMIT,
            ;
            assert(0 <= vy * vy <= 4 * LIMIT * LIMIT) by (nonlinear_arith)
                requires
                    -2 * LIMIT <= vy <= 2 * LIMIT,
            ;
            assert(0 <= max_speed * max_speed <= LIMIT * LIMIT) by (nonlinear_arith)
                requires
                    0 <= max_speed <= LIMIT,
            ;
            assert(-2 * LIMIT * LIMIT <= vx * max_speed <= 2 * LIMIT * LIMIT) by (nonlinear_arith)
                requires
                    -2 * LIMIT <= vx <= 2 * LIMIT,
                    0 <= max_speed <= LIMIT,
            ;
            assert(-2 * LIMIT * LIMIT <= vy * max_speed <= 2 * LIMIT * LIMIT) by (nonlinear_arith)
                requires
                    -2 * LIMIT <= vy <= 2 * LIMIT,
                    0 <= max_speed <= LIMIT,
            ;
            assert(LIMIT * LIMIT == 0x1_0000_0000_0000_0000_0000) by (nonlinear_arith);
        }
        let wx: i128 = vx as i128;
        let wy: i128 = vy as i128;
        let wm: i128 = max_speed as i128;
        let n: i128 = wx * wx + wy * wy;
        if n > wm * wm {
            let s: i128 = isqrt_ceil(n as u128) as i128;
            (div_round(wx * wm, s) as i64, div_round(wy * wm, s) as i64)
        } else {
            (vx, vy)
        }
    }
}

/// Whether the points `(ax, ay)` and `(bx, by)` are at most `reach` apart.
pub fn within_reach(ax: i64, ay: i64, bx: i64, by: i64, reach: i64) -> (near: bool)
    ensures
        near == within(ax as int, ay as int, bx as int, by as int, reach as int),
{
    let dx: i128 = ax as i128 - bx as i128;
    let dy: i128 = ay as i128 - by as i128;
    let dx: i128 = if dx < 0 { -dx } else { dx };
    let dy: i128 = if dy < 0 { -dy } else { dy };
    let ra: i128 = if reach < 0 { -(reach as i128) } else { reach as i128 };
    proof {
        let ex = ax - bx;
        let ey = ay - by;
        assert(dx * dx == ex * ex) by (nonlinear_arith)
            requires
                dx == ex || dx == -ex,
        ;
        assert(dy * dy == ey * ey) by (nonlinear_arith)
            requires
                dy == ey || dy == -ey,
        ;
        assert(ra * ra == reach * reach) by (nonlinear_arith)
            requires
                ra == reach || ra == -reach,
        ;
        assert(dx * dx >= 0 && dy * dy >= 0) by (nonlinear_arith);
        if dx > ra {
            assert(dx * dx > ra * ra) by (nonlinear_arith)
                requires
                    dx > ra >= 0,
            ;
        }
        if dy > ra {
            assert(dy * dy > ra * ra) by (nonlinear_arith)
                requires
                    dy > ra >= 0,
            ;
        }
        if dx <= ra && dy <= ra {
            assert(dx * dx <= 0x4000_0000_0000_0000 * 0x4000_0000_0000_0000 * 4
                && dy * dy <= 0x4000_0000_0000_0000 * 0x4000_0000_0000_0000 * 4
                && ra * ra <= 0x4000_0000_0000_0000 * 0x4000_0000_0000_0000 * 4)
                by (nonlinear_arith)
                requires
                    0 <= dx <= ra,
                    0 <= dy <= ra,
                    ra <= 0x8000_0000_0000_0000,
            ;
        }
    }
    if dx > ra || dy > ra {
        false
    } else {
        (dx as u128) * (dx as u128) + (dy as u128) * (dy as u128) <= (ra as u128) * (ra as u128)
    }
}

/// Length of the vector `(dx, dy)`, rounded down.
fn distance(dx: i64, dy: i64) -> (d: i64)
    requires
        -2 * LIMIT <= dx <= 2 * LIMIT,
        -2 * LIMIT <= dy <= 2 * LIMIT,
    ensures
        d == sqrt_floor(dx * dx + dy * dy),
        0 <= d <= 4 * LIMIT,
        d >= dx && d >= -dx && d >= dy && d >= -dy,
{
    proof {
        assert(0 <= dx * dx <= 4 * LIMIT * LIMIT) by (nonlinear_arith)
            requires
                -2 * LIMIT <= dx <= 2 * LIMIT,
        ;
        assert(0 <= dy * dy <= 4 * LIMIT * LIMIT) by (nonlinear_arith)
            requires
                -2 * LIMIT <= dy <= 2 * LIMIT,
        ;
        assert(LIMIT * LIMIT == 0x1_0000_0000_0000_0000_0000) by (nonlinear_arith);
    }
    let wx: i128 = dx as i128;
    let wy: i128 = dy as i128;
    let n: i128 = wx * wx + wy * wy;
    let d: u128 = isqrt(n as u128);
    proof {
        let ax: int = if dx < 0 { -dx } else { dx as int };
        let ay: int = if dy < 0 { -dy } else { dy as int };
        assert(ax * ax == dx * dx && ay * ay == dy * dy) by (nonlinear_arith)
            requires
                ax == dx || ax == -dx,
                ay == dy || ay == -dy,
        ;
        // the root of a sum of squares is at least the root of each square
        if d < ax {
            assert((d + 1) * (d + 1) <= ax * ax) by (nonlinear_arith)
                requires
                    0 <= d + 1 <= ax,
            ;
        }
        if d < ay {
            assert((d + 1) * (d + 1) <= ay * ay) by (nonlinear_arith)
                requires
                    0 <= d + 1 <= ay,
            ;
        }
        if d > 4 * LIMIT {
            assert(d * d > 8 * LIMIT * LIMIT) by (nonlinear_arith)
                requires
                    d > 4 * LIMIT,
                    LIMIT > 0,
            ;
        }
    }
    d as i64
}

/// Component `d` of a vector of length `dist`, as a share of the length.
fn along(d: i64, dist: i64) -> (n: i64)
    requires
        dist > 0,
        -dist <= d <= dist,
        dist <= 4 * LIMIT,
    ensures
        n == div_toward_zero(d * SCALE, dist as int),
        -SCALE <= n <= SCALE,
{
    proof {
        assert(-dist * SCALE <= d * SCALE <= dist * SCALE) by (nonlinear_arith)
            requires
                -dist <= d <= dist,
        ;
        lemma_div_toward_zero_bounds(d * SCALE, dist as int);
        let q = div_toward_zero(d * SCALE, dist as int);
        if q > SCALE {
            assert(q * dist > SCALE * dist) by (nonlinear_arith)
                requires
                    q > SCALE,
                    dist > 0,
            ;
        }
        if q < -SCALE {
            assert(q * dist < -SCALE * dist) by (nonlinear_arith)
                requires
                    q < -SCALE,
                    dist > 0,
            ;
        }
    }
    div_round((d as i128) * (SCALE as i128), dist as i128) as i64
}

/// A velocity cut down by `limit_speed` is no faster than `max_speed`.
pub proof fn lemma_limit_speed(vx: int, vy: int, max_speed: int)
    requires
        max_speed >= 0,
    ensures
        ({
            let v = limit_speed(vx, vy, max_speed);
            &&& v.0 * v.0 + v.1 * v.1 <= max_speed * max_speed
            &&& -max_speed <= v.0 <= max_speed
            &&& -max_speed <= v.1 <= max_speed
        }),
{
    let n = vx * vx + vy * vy;
    let v = limit_speed(vx, vy, max_speed);
    let m = max_speed;
    if n > m * m {
        assert(n >= 0) by (nonlinear_arith)
            requires
                n == vx * vx + vy * vy,
        ;
        lemma_sqrt_ceil(n);
        let s = sqrt_ceil(n);
        lemma_scaled_down(vx, m, s);
        lemma_scaled_down(vy, m, s);
        let a = v.0;
        let b = v.1;
        assert((a * s) * (a * s) == (s * s) * (a * a)) by (nonlinear_arith);
        assert((b * s) * (b * s) == (s * s) * (b * b)) by (nonlinear_arith);
        assert((vx * m) * (vx * m) == (m * m) * (vx * vx)) by (nonlinear_arith);
        assert((vy * m) * (vy * m) == (m * m) * (vy * vy)) by (nonlinear_arith);
        lemma_shrunk_squares(s * s, a * a, b * b, m * m, vx * vx, vy * vy);
    }
    lemma_square_bound(v.0, v.1, m);
}

/// If `a^2 + b^2 <= m^2` then neither `a` nor `b` exceeds `m` in magnitude.
pub proof fn lemma_square_bound(a: int, b: int, m: int)
    by (nonlinear_arith)
    requires
        m >= 0,
        a * a + b * b <= m * m,
    ensures
        -m <= a <= m,
        -m <= b <= m,
{
    if a > m {
        assert(a * a > m * m);
    }
    if a < -m {
        assert(a * a > m * m);
    }
    if b > m {
        assert(b * b > m * m);
    }
    if b < -m {
        assert(b * b > m * m);
    }
}

/// With `ss aa <= mm xx`, `ss bb <= mm yy` and `ss >= xx + yy`, the sum
/// `aa + bb` is at most `mm`.
proof fn lemma_shrunk_squares(ss: int, aa: int, bb: int, mm: int, xx: int, yy: int)
    by (nonlinear_arith)
    requires
        ss > 0,
        mm >= 0,
        ss >= xx + yy,
        ss * aa <= mm * xx,
        ss * bb <= mm * yy,
    ensures
        aa + bb <= mm,
{
    if aa + bb >= mm + 1 {
        assert(ss * (aa + bb) >= ss * (mm + 1));
        assert(ss * (aa + bb) == ss * aa + ss * bb);
        assert(mm * (xx + yy) == mm * xx + mm * yy);
        assert(ss * mm >= (xx + yy) * mm);
    }
}

/// `trunc(v m / s)` times `s` is no larger in magnitude than `v m`.
proof fn lemma_scaled_down(v: int, m: int, s: int)
    requires
        s > 0,
        m >= 0,
    ensures
        ({
            let q = div_toward_zero(v * m, s);
            (q * s) * (q * s) <= (v * m) * (v * m)
        }),
{
    let p = v * m;
    let q = div_toward_zero(p, s);
    lemma_div_toward_zero_bounds(p, s);
    if p >= 0 {
        assert(0 <= q * s <= p) by (nonlinear_arith)
            requires
                q >= 0,
                s > 0,
                q * s <= p,
        ;
        assert((q * s) * (q * s) <= p * p) by (nonlinear_arith)
            requires
                0 <= q * s <= p,
        ;
    } else {
        assert(p <= q * s <= 0) by (nonlinear_arith)
            requires
                q <= 0,
                s > 0,
                q * s >= p,
        ;
        assert((q * s) * (q * s) <= p * p) by (nonlinear_arith)
            requires
                p <= q * s <= 0,
        ;
    }
}

} // verus!
