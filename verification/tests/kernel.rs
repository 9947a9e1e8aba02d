use ship_game::combat::{CombatSystem, HitResult, Projectile, WeaponStats};
use ship_game::fixed::{
    add_capped, clamp_to, cos, count_up, div_round, isqrt, isqrt_ceil, mul_scaled, rate_per_tick,
    sin, tick_down, wrap, LIMIT, PI, QUARTER_TURN, SCALE, TAU, TICK, TICKS_PER_SECOND,
};
use ship_game::physics::{within_reach, PhysicsSystem, ShipStats};
use ship_game::protocol::ShipType;
use ship_game::time::tick_delta;
use ship_game::zone::interpolate_radius;

#[test]
fn one_tick_is_a_thirtieth_of_a_second() {
    assert_eq!(TICK * TICKS_PER_SECOND, SCALE);
    assert_eq!(tick_delta(), 100);
}

#[test]
fn quotients_round_toward_zero() {
    assert_eq!(div_round(7, 2), 3);
    assert_eq!(div_round(-7, 2), -3);
    assert_eq!(div_round(-1, 30), 0);
    assert_eq!(rate_per_tick(15_000), 500);
    assert_eq!(rate_per_tick(-15_001), -500);
    assert_eq!(mul_scaled(750_000, 2790), 697_500);
    assert_eq!(mul_scaled(-750_001, 2790), -697_500);
}

#[test]
fn clamp_holds_values_in_their_interval() {
    assert_eq!(clamp_to(5, -3, 3), 3);
    assert_eq!(clamp_to(-5, -3, 3), -3);
    assert_eq!(clamp_to(2, -3, 3), 2);
}

#[test]
fn counters_stop_at_their_largest_value() {
    assert_eq!(count_up(7), 8);
    assert_eq!(count_up(u32::MAX), u32::MAX);
    assert_eq!(add_capped(40, 2), 42);
    assert_eq!(add_capped(i64::MAX - 1, 5), i64::MAX);
    assert_eq!(tick_down(250), 150);
    assert_eq!(tick_down(-LIMIT + 5), -LIMIT);
}

#[test]
fn integer_square_roots() {
    assert_eq!(isqrt(0), 0);
    assert_eq!(isqrt(10), 3);
    assert_eq!(isqrt(16), 4);
    assert_eq!(isqrt(u128::MAX), u64::MAX as u128);
    assert_eq!(isqrt_ceil(16), 4);
    assert_eq!(isqrt_ceil(17), 5);
    assert_eq!(isqrt_ceil(0), 0);
}

#[test]
fn angles_wrap_into_one_turn() {
    assert_eq!(wrap(0), 0);
    assert_eq!(wrap(TAU), 0);
    assert_eq!(wrap(TAU + 5), 5);
    assert_eq!(wrap(-100), TAU - 100);
    assert_eq!(wrap(i64::MIN), (i64::MIN).rem_euclid(TAU));
}

#[test]
fn sine_and_cosine_at_the_quarter_turns() {
    assert_eq!(sin(0), 0);
    assert_eq!(sin(QUARTER_TURN), SCALE);
    assert_eq!(sin(PI), 0);
    assert_eq!(sin(3 * QUARTER_TURN), -SCALE);
    assert_eq!(cos(0), SCALE);
    assert_eq!(cos(QUARTER_TURN), 0);
    assert_eq!(cos(PI), -SCALE);
    assert_eq!(sin(1571), 1500);
    assert_eq!(sin(-1571), -1500);
    assert_eq!(cos(1571), 2594);
}

#[test]
fn sine_stays_close_to_the_true_sine() {
    let mut angle: i64 = -TAU;
    while angle <= 2 * TAU {
        let exact = ((angle as f64) / (TAU as f64) * std::f64::consts::TAU).sin() * (SCALE as f64);
        let got = sin(angle) as f64;
        assert!((got - exact).abs() <= 6.0, "sin({}) = {} but the true sine is {}", angle, got, exact);
        assert!(sin(angle).abs() <= SCALE);
        assert!(cos(angle).abs() <= SCALE);
        angle += 7;
    }
}

#[test]
fn ship_stats_table() {
    let scout = ShipStats::for_type(ShipType::Scout);
    assert_eq!(
        (scout.max_speed, scout.acceleration, scout.drag, scout.turn_rate, scout.max_health, scout.hitbox_radius),
        (1_200_000, 900_000, 2850, 12_000, 180_000, 45_000)
    );
    let fighter = ShipStats::for_type(ShipType::Fighter);
    assert_eq!(
        (fighter.max_speed, fighter.acceleration, fighter.drag, fighter.turn_rate, fighter.max_health, fighter.hitbox_radius),
        (900_000, 750_000, 2790, 9000, 300_000, 60_000)
    );
    let cruiser = ShipStats::for_type(ShipType::Cruiser);
    assert_eq!(
        (cruiser.max_speed, cruiser.acceleration, cruiser.drag, cruiser.turn_rate, cruiser.max_health, cruiser.hitbox_radius),
        (600_000, 450_000, 2700, 6000, 450_000, 90_000)
    );
    let destroyer = ShipStats::for_type(ShipType::Destroyer);
    assert_eq!(
        (
            destroyer.max_speed,
            destroyer.acceleration,
            destroyer.drag,
            destroyer.turn_rate,
            destroyer.max_health,
            destroyer.hitbox_radius
        ),
        (540_000, 360_000, 2640, 4500, 360_000, 105_000)
    );
}

#[test]
fn weapon_stats_table() {
    let scout = WeaponStats::for_type(ShipType::Scout);
    assert_eq!(
        (scout.damage, scout.projectile_speed, scout.cooldown, scout.projectile_lifetime, scout.projectile_radius),
        (24_000, 1_800_000, 450, 4500, 9000)
    );
    let fighter = WeaponStats::for_type(ShipType::Fighter);
    assert_eq!(
        (fighter.damage, fighter.projectile_speed, fighter.cooldown, fighter.projectile_lifetime, fighter.projectile_radius),
        (36_000, 1_500_000, 750, 6000, 12_000)
    );
    let cruiser = WeaponStats::for_type(ShipType::Cruiser);
    assert_eq!(
        (cruiser.damage, cruiser.projectile_speed, cruiser.cooldown, cruiser.projectile_lifetime, cruiser.projectile_radius),
        (45_000, 1_200_000, 1200, 7500, 15_000)
    );
    let destroyer = WeaponStats::for_type(ShipType::Destroyer);
    assert_eq!(
        (
            destroyer.damage,
            destroyer.projectile_speed,
            destroyer.cooldown,
            destroyer.projectile_lifetime,
            destroyer.projectile_radius
        ),
        (75_000, 1_050_000, 1800, 9000, 24_000)
    );
}

#[test]
fn ship_accelerates_along_its_heading() {
    let fighter = ShipStats::for_type(ShipType::Fighter);
    assert_eq!(PhysicsSystem::update_ship(0, 0, 0, 0, 0, SCALE, 0, &fighter), (775, 0, 0, 23_250, 0));
}

#[test]
fn ship_reverses_at_half_power() {
    let fighter = ShipStats::for_type(ShipType::Fighter);
    assert_eq!(PhysicsSystem::update_ship(0, 0, 0, 0, 0, -SCALE, 0, &fighter), (-387, 0, 0, -11_625, 0));
}

#[test]
fn ship_turns_by_its_turn_rate() {
    let fighter = ShipStats::for_type(ShipType::Fighter);
    assert_eq!(PhysicsSystem::update_ship(0, 0, 0, 0, 0, 0, SCALE, &fighter), (0, 0, 300, 0, 0));
    assert_eq!(PhysicsSystem::update_ship(0, 0, 0, 0, 0, 0, -SCALE, &fighter), (0, 0, TAU - 300, 0, 0));
}

#[test]
fn ship_controls_are_clamped() {
    let fighter = ShipStats::for_type(ShipType::Fighter);
    assert_eq!(
        PhysicsSystem::update_ship(0, 0, 0, 0, 0, 999_999, 0, &fighter),
        PhysicsSystem::update_ship(0, 0, 0, 0, 0, SCALE, 0, &fighter)
    );
    assert_eq!(
        PhysicsSystem::update_ship(0, 0, 0, 0, 0, 0, -999_999, &fighter),
        PhysicsSystem::update_ship(0, 0, 0, 0, 0, 0, -SCALE, &fighter)
    );
}

#[test]
fn ship_heading_wraps_into_one_turn() {
    let fighter = ShipStats::for_type(ShipType::Fighter);
    assert_eq!(PhysicsSystem::update_ship(0, 0, -100, 0, 0, 0, 0, &fighter).2, TAU - 100);
    assert_eq!(PhysicsSystem::update_ship(0, 0, TAU + 5, 0, 0, 0, 0, &fighter).2, 5);
}

#[test]
fn ship_is_held_to_its_top_speed() {
    let fighter = ShipStats::for_type(ShipType::Fighter);
    let (x, y, _, vx, vy) = PhysicsSystem::update_ship(0, 0, 0, 2_000_000, -1_500_000, 0, 0, &fighter);
    assert_eq!((x, y, vx, vy), (24_000, -18_000, 720_000, -540_000));
    assert!((vx as i128) * (vx as i128) + (vy as i128) * (vy as i128) <= 900_000i128 * 900_000i128);
}

#[test]
fn ship_speed_never_exceeds_the_class_maximum() {
    let stats = ShipStats::for_type(ShipType::Scout);
    let mut state = (0i64, 0i64, 0i64, 0i64, 0i64);
    let mut tick = 0;
    while tick < 400 {
        let steer = if tick % 50 < 25 { SCALE } else { -SCALE / 2 };
        state = PhysicsSystem::update_ship(state.0, state.1, state.2, state.3, state.4, SCALE, steer, &stats);
        let speed_sq = (state.3 as i128) * (state.3 as i128) + (state.4 as i128) * (state.4 as i128);
        assert!(speed_sq <= (stats.max_speed as i128) * (stats.max_speed as i128));
        assert!(0 <= state.2 && state.2 < TAU);
        tick += 1;
    }
}

#[test]
fn ship_stops_at_the_edge_of_the_world() {
    let fighter = ShipStats::for_type(ShipType::Fighter);
    let moved = PhysicsSystem::update_ship(LIMIT, -LIMIT, 0, 900_000, -450_000, 0, 0, &fighter);
    assert_eq!((moved.0, moved.1), (LIMIT, -LIMIT));
}

#[test]
fn zone_test_compares_squared_distances() {
    assert!(PhysicsSystem::is_in_zone(3, 4, 0, 0, 5));
    assert!(!PhysicsSystem::is_in_zone(3, 4, 0, 0, 4));
    assert!(PhysicsSystem::is_in_zone(-3, -4, 0, 0, 5));
    assert!(PhysicsSystem::is_in_zone(10, 10, 10, 10, 0));
    assert!(!PhysicsSystem::is_in_zone(i64::MAX, 0, i64::MIN, 0, i64::MAX));
    assert!(within_reach(0, 0, 0, 7, -7));
}

#[test]
fn zone_distance_is_negative_inside() {
    assert_eq!(PhysicsSystem::zone_distance(3, 4, 0, 0, 10), -5);
    assert_eq!(PhysicsSystem::zone_distance(30, 40, 0, 0, 10), 40);
    assert_eq!(PhysicsSystem::zone_distance(1, 1, 0, 0, 0), 1);
}

#[test]
fn ships_collide_when_their_hitboxes_touch() {
    assert!(PhysicsSystem::check_ship_collision(0, 0, 20, 40, 0, 20));
    assert!(!PhysicsSystem::check_ship_collision(0, 0, 20, 41, 0, 20));
    assert!(PhysicsSystem::check_ship_collision(0, 0, 20, 24, 32, 20));
}

#[test]
fn colliding_ships_are_pushed_apart() {
    assert_eq!(
        PhysicsSystem::resolve_ship_collision(0, 0, 20 * SCALE, 30 * SCALE, 0, 20 * SCALE),
        ((-15_300, 0), (105_300, 0))
    );
    assert_eq!(
        PhysicsSystem::resolve_ship_collision(0, 0, 20 * SCALE, 10 * SCALE, 10 * SCALE, 15 * SCALE),
        ((-22_332, -22_332), (52_332, 52_332))
    );
}

#[test]
fn coincident_ships_are_offset_along_x() {
    assert_eq!(
        PhysicsSystem::resolve_ship_collision(5, 5, 20 * SCALE, 6, 5, 30 * SCALE),
        ((-59_995, 5), (90_006, 5))
    );
}

#[test]
fn distant_ships_stay_where_they_are() {
    assert_eq!(
        PhysicsSystem::resolve_ship_collision(0, 0, 20 * SCALE, 50 * SCALE, 0, 20 * SCALE),
        ((0, 0), (150_000, 0))
    );
}

#[test]
fn weapon_fires_when_cooled_down() {
    assert!(CombatSystem::can_fire(0));
    assert!(CombatSystem::can_fire(-1));
    assert!(!CombatSystem::can_fire(1));
    let fighter = WeaponStats::for_type(ShipType::Fighter);
    assert_eq!(CombatSystem::fire_cooldown(&fighter), 750);
}

#[test]
fn cooldown_runs_down_by_one_tick() {
    assert_eq!(CombatSystem::update_cooldown(750), 650);
    assert_eq!(CombatSystem::update_cooldown(40), 0);
    assert_eq!(CombatSystem::update_cooldown(0), 0);
    assert_eq!(CombatSystem::update_cooldown(i64::MIN), 0);
}

#[test]
fn apply_damage_takes_health_down_to_zero() {
    assert_eq!(CombatSystem::apply_damage(10 * SCALE, 3 * SCALE), (7 * SCALE, false));
    assert_eq!(CombatSystem::apply_damage(10 * SCALE, 10 * SCALE), (0, true));
    assert_eq!(CombatSystem::apply_damage(10 * SCALE, 25 * SCALE), (0, true));
    assert_eq!(CombatSystem::apply_damage(0, 0), (0, true));
    assert_eq!(CombatSystem::calculate_damage(36_000, 2), 36_000);
}

#[test]
fn zone_damage_is_a_thirtieth_of_the_damage_per_second() {
    assert_eq!(CombatSystem::zone_damage(5 * SCALE), 500);
    assert_eq!(CombatSystem::zone_damage(25 * SCALE), 2500);
    assert_eq!(CombatSystem::zone_damage(0), 0);
}

#[test]
fn projectile_starts_with_the_weapon_stats() {
    let fighter = WeaponStats::for_type(ShipType::Fighter);
    let p = Projectile::with_id(7, 9, 100, 200, 0, &fighter);
    assert_eq!(
        p,
        Projectile {
            id: 7,
            owner_id: 9,
            x: 100,
            y: 200,
            vel_x: 1_500_000,
            vel_y: 0,
            damage: 36_000,
            radius: 12_000,
            lifetime_remaining: 6000,
        }
    );
    let up = Projectile::with_id(7, 9, 0, 0, QUARTER_TURN, &fighter);
    assert_eq!((up.vel_x, up.vel_y), (0, 1_500_000));
    let slanted = Projectile::with_id(7, 9, 0, 0, 1000, &fighter);
    assert_eq!((slanted.vel_x, slanted.vel_y), (1_416_000, 492_500));
}

#[test]
fn new_projectiles_get_random_version_4_ids() {
    let fighter = WeaponStats::for_type(ShipType::Fighter);
    let a = Projectile::new(9, 0, 0, 0, &fighter);
    let b = Projectile::new(9, 0, 0, 0, &fighter);
    assert_ne!(a.id, b.id);
    assert_eq!(uuid::Uuid::from_u128(a.id).get_version_num(), 4);
    assert_eq!((a.owner_id, a.vel_x, a.lifetime_remaining), (9, 1_500_000, 6000));
}

#[test]
fn projectile_moves_and_ages() {
    let fighter = WeaponStats::for_type(ShipType::Fighter);
    let mut p = Projectile::with_id(7, 9, 0, 0, 0, &fighter);
    assert!(p.update());
    assert_eq!((p.x, p.y, p.lifetime_remaining), (50_000, 0, 5900));
    let mut ticks = 1;
    while p.update() {
        ticks += 1;
    }
    assert_eq!(ticks + 1, 60);
    assert_eq!(p.lifetime_remaining, 0);
}

#[test]
fn projectile_hits_within_the_sum_of_the_radii() {
    let fighter = WeaponStats::for_type(ShipType::Fighter);
    let p = Projectile::with_id(7, 9, 0, 0, 0, &fighter);
    assert!(p.check_hit(72_000, 0, 60_000));
    assert!(!p.check_hit(72_001, 0, 60_000));
}

#[test]
fn hit_results_compare_by_value() {
    let hit = HitResult { projectile_id: 1, shooter_id: 2, target_id: 3, damage: 4, x: 5, y: 6, target_killed: false };
    assert_eq!(hit, hit.clone());
}

#[test]
fn zone_radius_changes_evenly() {
    assert_eq!(interpolate_radius(4_500_000, 3_000_000, 90_000, 90_000), 4_500_000);
    assert_eq!(interpolate_radius(4_500_000, 3_000_000, 45_000, 90_000), 3_750_000);
    assert_eq!(interpolate_radius(4_500_000, 3_000_000, 89_900, 90_000), 4_498_334);
    assert_eq!(interpolate_radius(4_500_000, 3_000_000, 0, 90_000), 3_000_000);
    assert_eq!(interpolate_radius(4_500_000, 3_000_000, -500, 90_000), 3_000_000);
    assert_eq!(interpolate_radius(4_500_000, 3_000_000, 95_000, 90_000), 4_500_000);
    assert_eq!(interpolate_radius(4_500_000, 3_000_000, 10, 0), 3_000_000);
}
