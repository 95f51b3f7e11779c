//! The coupled-ship movement model on concrete values: free movement, the
//! coupling rules at maximum separation, strain accrual and decay, and the
//! three death conditions.

use cloud_surfer::game_map::GameMap;
use cloud_surfer::player::{DeathReason, PlayerShip, MAX_SEPARATION_STRAIN};

fn ship_at(left_x: i64, right_x: i64) -> PlayerShip {
    PlayerShip {
        is_dead: false,
        death_reason: None,
        speed: 150,
        max_separation: 160_000,
        separation_strain: 0,
        left_x,
        right_x,
    }
}

#[test]
fn spawn_places_ships_half_a_sprite_out() {
    let map = GameMap::default();
    let ship = PlayerShip::spawn(&map);
    assert_eq!(ship.left_x, -16_000);
    assert_eq!(ship.right_x, 16_000);
    assert_eq!(ship.speed, 150);
    assert_eq!(ship.max_separation, 160_000);
    assert_eq!(ship.separation_strain, 0);
    assert!(!ship.is_dead);
    assert_eq!(ship.death_reason, None);
}

#[test]
fn free_movement_under_the_limit() {
    let map = GameMap::default();
    let mut ship = PlayerShip::spawn(&map);
    // 150 units/s with the 1.5x handling factor: 225 milli-units per real ms
    let died = ship.step(1, 1, 50, 100, &map);
    assert_eq!(died, None);
    assert_eq!(ship.left_x, -16_000 + 22_500);
    assert_eq!(ship.right_x, 16_000 + 22_500);
    let died = ship.step(-1, 1, 10, 100, &map);
    assert_eq!(died, None);
    assert_eq!(ship.left_x, 6_500 - 22_500);
    assert_eq!(ship.right_x, 38_500 + 22_500);
}

#[test]
fn movement_clamps_at_the_map_edge() {
    let map = GameMap::default();
    let mut ship = ship_at(200_000, 250_000);
    ship.step(1, 1, 100, 3_600_000, &map);
    assert_eq!(ship.left_x, 256_000);
    assert_eq!(ship.right_x, 256_000);
    // both pinned at the edge now count as collided
    assert!(ship.is_dead);
    assert_eq!(ship.death_reason, Some(DeathReason::ShipsCollided));
}

#[test]
fn coupling_blocks_opposite_intents_at_the_limit() {
    let map = GameMap::default();
    let mut ship = ship_at(-80_000, 80_000); // dx == max_separation
    let died = ship.step(-1, 1, 100, 100, &map);
    assert_eq!(died, None);
    assert_eq!(ship.left_x, -80_000);
    assert_eq!(ship.right_x, 80_000);
    let died = ship.step(1, -1, 100, 100, &map);
    assert_eq!(died, None);
    assert_eq!(ship.left_x, -80_000);
    assert_eq!(ship.right_x, 80_000);
}

#[test]
fn coupling_drags_the_idle_side_along() {
    let map = GameMap::default();
    let mut ship = ship_at(-80_000, 80_000); // dx == max_separation
    let died = ship.step(1, 0, 100, 100, &map);
    assert_eq!(died, None);
    // both sides shift by the left side's clamped displacement
    assert_eq!(ship.left_x, -80_000 + 22_500);
    assert_eq!(ship.right_x, 80_000 + 22_500);
    assert_eq!(ship.right_x - ship.left_x, 160_000);
}

#[test]
fn strain_accrues_at_rate_one_past_the_limit() {
    let map = GameMap::default();
    let mut ship = ship_at(-80_500, 80_500); // one unit over the limit
    for k in 1..=5u64 {
        let died = ship.step(0, 0, 1000, 50, &map);
        assert_eq!(died, None);
        assert_eq!(ship.separation_strain, 1000 * k); // exactly the game time
        assert!(!ship.is_dead);
    }
    assert_eq!(ship.separation_strain, MAX_SEPARATION_STRAIN);
    // one more second pushes it past the threshold: the tether breaks
    let died = ship.step(0, 0, 1000, 50, &map);
    assert_eq!(died, Some(DeathReason::TetherBroke));
    assert!(ship.is_dead);
    assert_eq!(ship.death_reason, Some(DeathReason::TetherBroke));
}

#[test]
fn strain_decays_at_three_quarters_rate_floored_at_zero() {
    let map = GameMap::default();
    let mut ship = PlayerShip::spawn(&map);
    ship.separation_strain = 1000;
    let died = ship.step(0, 0, 1000, 0, &map);
    assert_eq!(died, None);
    assert_eq!(ship.separation_strain, 250); // 1000 - 750
    ship.step(0, 0, 1000, 0, &map);
    assert_eq!(ship.separation_strain, 0); // floored, not negative
    ship.step(0, 0, 1000, 0, &map);
    assert_eq!(ship.separation_strain, 0);
    assert!(!ship.is_dead);
}

#[test]
fn ships_collide_below_minimum_separation() {
    let map = GameMap::default();
    let mut ship = ship_at(-10_000, 10_000); // 20000 < 24000 = 0.75 sprite
    let died = ship.step(0, 0, 100, 0, &map);
    assert_eq!(died, Some(DeathReason::ShipsCollided));
    assert!(ship.is_dead);
}

#[test]
fn dead_ship_steps_are_no_ops() {
    let map = GameMap::default();
    let mut ship = ship_at(-10_000, 10_000);
    ship.step(0, 0, 100, 0, &map);
    assert!(ship.is_dead);
    let frozen = (ship.left_x, ship.right_x, ship.separation_strain);
    for _ in 0..5 {
        let died = ship.step(1, -1, 5000, 3_600_000, &map);
        assert_eq!(died, None);
        assert_eq!((ship.left_x, ship.right_x, ship.separation_strain), frozen);
        assert_eq!(ship.death_reason, Some(DeathReason::ShipsCollided));
    }
}

#[test]
fn strain_percent_for_display() {
    let map = GameMap::default();
    let mut ship = PlayerShip::spawn(&map);
    assert_eq!(ship.strain_percent(), 0);
    ship.separation_strain = 2500;
    assert_eq!(ship.strain_percent(), 50);
    ship.separation_strain = 5000;
    assert_eq!(ship.strain_percent(), 100);
}

#[test]
fn laser_flicker_speeds_up_with_strain() {
    let map = GameMap::default();
    let mut ship = PlayerShip::spawn(&map);
    assert_eq!(ship.laser_frame_count(), 2); // calm tether
    ship.left_x = -80_501;
    ship.right_x = 80_500; // stretched past the limit
    ship.separation_strain = 1650;
    assert_eq!(ship.laser_frame_count(), 3); // at 33%: not yet faster
    ship.separation_strain = 1651;
    assert_eq!(ship.laser_frame_count(), 5);
    ship.separation_strain = 3300;
    assert_eq!(ship.laser_frame_count(), 5); // at 66%: not yet fastest
    ship.separation_strain = 3301;
    assert_eq!(ship.laser_frame_count(), 10);
}

#[test]
fn laser_midpoint_sits_between_the_ships() {
    let map = GameMap::default();
    let ship = PlayerShip::spawn(&map);
    assert_eq!(ship.laser_midpoint_x(), 0);
    let shifted = PlayerShip { left_x: 10_000, right_x: 50_000, ..ship };
    assert_eq!(shifted.laser_midpoint_x(), 30_000);
}

#[test]
fn death_messages() {
    assert_eq!(DeathReason::ShipsCollided.message(), "The ships collided!");
    assert_eq!(DeathReason::TetherBroke.message(), "The tether broke!");
    assert_eq!(DeathReason::ObstacleStrike.message(), "A tractor hit an obstacle!");
}
