//! Map geometry, clock, score, and asset-path behaviour on concrete values.

use cloud_surfer::game_map::GameMap;
use cloud_surfer::game_time::GameTime;
use cloud_surfer::obstacles::{Obstacle, ObstacleField};
use cloud_surfer::paths::AssetPaths;
use cloud_surfer::score::{score_captured_obstacles, Score};
use cloud_surfer::sim::Actions;

#[test]
fn map_default_geometry() {
    let map = GameMap::default();
    assert_eq!(map.width, 16);
    assert_eq!(map.height, 16);
    assert_eq!(map.pad_x, 3);
    assert_eq!(map.pad_y, 3);
    assert_eq!(map.sprite_size, 32);
    assert_eq!(map.bottom_y(), -256_000);
    assert_eq!(map.top_y(), 256_000);
    assert_eq!(map.get_x_bound(), 256_000);
}

#[test]
fn clock_reset_state() {
    let t = GameTime::new();
    assert_eq!(t.multiplier, 1000);
    assert_eq!(t.elapsed, 0);
    assert_eq!(t.delta, 0);
    assert_eq!(t.real_elapsed, 0);
    assert_eq!(t.next_fixed_update, 500);
    assert!(!t.fixed_update);
}

#[test]
fn clock_multiplier_formula_and_monotone() {
    let mut t = GameTime::new();
    t.advance(1000);
    assert_eq!(t.delta, 1000);
    assert_eq!(t.elapsed, 1000);
    assert_eq!(t.multiplier, 1016);
    t.advance(1000);
    assert_eq!(t.delta, 1016);
    assert_eq!(t.elapsed, 2016);
    assert_eq!(t.multiplier, 1033);
    t.advance(1000);
    assert_eq!(t.delta, 1033);
    assert_eq!(t.elapsed, 3049);
    assert_eq!(t.multiplier, 1050);
    // the multiplier is always the exact linear function of elapsed time
    let mut prev = 1000;
    let mut u = GameTime::new();
    for _ in 0..50 {
        u.advance(137);
        assert_eq!(u.multiplier, 1000 + u.elapsed / 60);
        assert!(u.multiplier >= prev);
        prev = u.multiplier;
    }
}

#[test]
fn clock_replay_is_deterministic() {
    let deltas = [16u64, 17, 16, 33, 100, 5, 16];
    let mut a = GameTime::new();
    let mut b = GameTime::new();
    for d in deltas {
        a.advance(d);
        b.advance(d);
        assert_eq!(a.elapsed, b.elapsed);
        assert_eq!(a.delta, b.delta);
        assert_eq!(a.multiplier, b.multiplier);
        assert_eq!(a.fixed_update, b.fixed_update);
    }
}

#[test]
fn clock_fixed_tick_paced_by_real_time() {
    let mut t = GameTime::new();
    t.advance(100);
    assert!(!t.fixed_update); // 100 <= 500
    t.advance(450);
    assert!(t.fixed_update); // 550 > 500
    assert_eq!(t.next_fixed_update, 650);
    t.advance(50);
    assert!(!t.fixed_update); // 600 <= 650
    t.advance(100);
    assert!(t.fixed_update); // 700 > 650
    assert_eq!(t.next_fixed_update, 800);
}

#[test]
fn clock_reset_after_advancing() {
    let mut t = GameTime::new();
    t.advance(2500);
    t.reset();
    assert_eq!(t.elapsed, 0);
    assert_eq!(t.multiplier, 1000);
    assert_eq!(t.delta, 0);
    assert!(!t.fixed_update);
}

#[test]
fn score_accrues_game_time_while_alive() {
    let mut s = Score::default();
    assert_eq!(s.current, 0);
    assert_eq!(s.multiplier, 1);
    s.update(500, false);
    assert_eq!(s.current, 500);
    s.update(123, false);
    assert_eq!(s.current, 623);
    s.update(1000, true);
    assert_eq!(s.current, 623); // dead ships score nothing
}

#[test]
fn capture_bonus_paid_exactly_once() {
    let mut field = ObstacleField::new();
    field.obstacles.push(Obstacle { x: 0, y: 0, visible: false, captured: true });
    field.obstacles.push(Obstacle { x: 32_000, y: 0, visible: true, captured: false });
    field.obstacles.push(Obstacle { x: -32_000, y: 0, visible: false, captured: true });
    let mut s = Score::default();
    score_captured_obstacles(&mut field, &mut s, false);
    assert_eq!(s.current, 20_000); // two captures, ten points each
    assert!(field.obstacles.iter().all(|o| !o.captured));
    // a second pass finds no marks and pays nothing
    score_captured_obstacles(&mut field, &mut s, false);
    assert_eq!(s.current, 20_000);
}

#[test]
fn capture_bonus_skipped_once_dead() {
    let mut field = ObstacleField::new();
    field.obstacles.push(Obstacle { x: 0, y: 0, visible: false, captured: true });
    let mut s = Score::default();
    score_captured_obstacles(&mut field, &mut s, true);
    assert_eq!(s.current, 0);
    assert!(field.obstacles[0].captured);
}

#[test]
fn points_are_the_whole_part_of_the_score() {
    let mut s = Score::default();
    s.update(12_345, false);
    assert_eq!(s.points(), 12);
    assert_eq!(s.current, 12_345);
}

#[test]
fn key_mapping_sums_and_cancels() {
    let a = Actions::from_keys(true, false, false, true, false);
    assert_eq!(a.player_left_move, -1);
    assert_eq!(a.player_right_move, 1);
    assert!(!a.restart_requested);
    // both keys of one side held: they cancel
    let b = Actions::from_keys(true, true, true, true, true);
    assert_eq!(b.player_left_move, 0);
    assert_eq!(b.player_right_move, 0);
    assert!(b.restart_requested);
    let c = Actions::default();
    assert_eq!(c.player_left_move, 0);
    assert_eq!(c.player_right_move, 0);
    assert!(!c.restart_requested);
}

#[test]
fn asset_paths_layout() {
    let p = AssetPaths::new();
    assert_eq!(p.fira_sans, "fonts/FiraSans-Bold.ttf");
    assert_eq!(p.audio_collect, "audio/collect.ogg");
    assert_eq!(p.audio_music, "audio/music.ogg");
    assert_eq!(p.cloud_001, "textures/cloud_001.png");
    assert_eq!(p.player_left, "textures/player_left.png");
    assert_eq!(p.player_right, "textures/player_right.png");
    assert_eq!(p.laser, "textures/laser.png");
    assert_eq!(p.grass, "textures/grass.png");
}
