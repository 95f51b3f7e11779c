//! The obstacle field on concrete values: the pattern catalog and its
//! score gates, spawning, falling, crossing resolution (strike before
//! capture), and cleanup.

use cloud_surfer::game_map::GameMap;
use cloud_surfer::obstacles::{eligible_indices, Obstacle, ObstacleField};

fn obstacle(x: i64, y: i64) -> Obstacle {
    Obstacle { x, y, visible: true, captured: false }
}

#[test]
fn catalog_patterns_and_gates() {
    let field = ObstacleField::new();
    let pats = &field.patterns.patterns;
    assert_eq!(pats.len(), 6);
    let gates: Vec<i64> = pats.iter().map(|p| p.min_score).collect();
    assert_eq!(gates, vec![-1000, -1000, 50_000, 60_000, 30_000, 100_000]);
    let sizes: Vec<usize> = pats.iter().map(|p| p.offsets.len()).collect();
    assert_eq!(sizes, vec![1, 3, 5, 4, 3, 5]);
    assert_eq!(pats[0].offsets[0].x, 0);
    assert_eq!(pats[0].offsets[0].y, 0);
    assert_eq!(pats[5].offsets[0].x, -4);
    assert_eq!(pats[4].offsets[0].y, -2);
}

#[test]
fn eligibility_is_gated_by_score() {
    let field = ObstacleField::new();
    // at score zero only the always-eligible patterns (negative gate)
    assert_eq!(eligible_indices(&field.patterns, 0), vec![0, 1]);
    // a gate is strictly below the score, so exactly 50 points is not enough
    assert_eq!(eligible_indices(&field.patterns, 50_000), vec![0, 1, 4]);
    assert_eq!(eligible_indices(&field.patterns, 50_001), vec![0, 1, 2, 4]);
    // at 1000 points every pattern is eligible
    assert_eq!(eligible_indices(&field.patterns, 1_000_000), vec![0, 1, 2, 3, 4, 5]);
}

#[test]
fn spawn_fires_on_the_period() {
    let map = GameMap::default();
    let mut field = ObstacleField::new();
    // under the period: the timer just accumulates
    assert!(!field.spawn_tick(1000, false, 0, &map, 2, 0));
    assert_eq!(field.spawn_timer, 1000);
    assert_eq!(field.obstacles.len(), 0);
    // completing the period wraps the timer and spawns one wave
    assert!(field.spawn_tick(2000, false, 0, &map, 2, 0));
    assert_eq!(field.spawn_timer, 0);
    assert_eq!(field.obstacles.len(), 1);
    let o = field.obstacles[0];
    assert_eq!(o.x, 64_000); // column 2 of 32-unit sprites
    assert_eq!(o.y, 544_000); // three pad rows above the top edge
    assert!(o.visible);
    assert!(!o.captured);
}

#[test]
fn spawn_pick_selects_among_eligible_patterns() {
    let map = GameMap::default();
    let mut field = ObstacleField::new();
    // pick 1 of the two eligible patterns at score zero: the row of three
    field.spawn_tick(3000, false, 0, &map, 0, 1);
    assert_eq!(field.obstacles.len(), 3);
    let xs: Vec<i64> = field.obstacles.iter().map(|o| o.x).collect();
    assert_eq!(xs, vec![-32_000, 0, 32_000]);
    // the pick wraps modulo the eligible count: 5 % 2 == 1, same pattern
    let mut field2 = ObstacleField::new();
    field2.spawn_tick(3000, false, 0, &map, 0, 5);
    assert_eq!(field2.obstacles.len(), 3);
}

#[test]
fn spawn_skipped_once_dead() {
    let map = GameMap::default();
    let mut field = ObstacleField::new();
    assert!(!field.spawn_tick(5000, true, 0, &map, 0, 0));
    assert_eq!(field.spawn_timer, 0);
    assert_eq!(field.obstacles.len(), 0);
}

#[test]
fn obstacles_fall_with_game_time() {
    let map = GameMap::default();
    let mut field = ObstacleField::new();
    field.obstacles.push(obstacle(64_000, 544_000));
    let (struck, captures) = field.advance(1000, false, -16_000, 16_000, &map);
    assert!(!struck);
    assert_eq!(captures, 0);
    assert_eq!(field.obstacles[0].y, 544_000 - 150_000);
    assert!(field.obstacles[0].visible);
}

#[test]
fn crossing_through_the_gap_is_captured_once() {
    let map = GameMap::default();
    let mut field = ObstacleField::new();
    field.obstacles.push(obstacle(0, -250_000));
    let (struck, captures) = field.advance(50, false, -64_000, 64_000, &map);
    assert!(!struck);
    assert_eq!(captures, 1);
    let o = field.obstacles[0];
    assert_eq!(o.y, -257_500);
    assert!(!o.visible);
    assert!(o.captured);
    // later frames do not resolve it again: it is invisible now
    let (struck, captures) = field.advance(50, false, -64_000, 64_000, &map);
    assert!(!struck);
    assert_eq!(captures, 0);
}

#[test]
fn crossing_near_a_ship_is_a_strike() {
    let map = GameMap::default();
    let mut field = ObstacleField::new();
    field.obstacles.push(obstacle(-64_000, -250_000)); // exactly on the left ship
    let (struck, captures) = field.advance(50, false, -64_000, 64_000, &map);
    assert!(struck);
    assert_eq!(captures, 0);
    let o = field.obstacles[0];
    assert!(o.visible);
    assert!(!o.captured);
}

#[test]
fn strike_takes_precedence_over_capture() {
    let map = GameMap::default();
    let mut field = ObstacleField::new();
    // ships close together: x == 0 is inside the gap AND within strike
    // range (25600) of both sides
    field.obstacles.push(obstacle(0, -250_000));
    let (struck, captures) = field.advance(50, false, -20_000, 20_000, &map);
    assert!(struck);
    assert_eq!(captures, 0);
    assert!(!field.obstacles[0].captured); // never captured that frame
    assert!(field.obstacles[0].visible);
}

#[test]
fn strike_stops_the_frame() {
    let map = GameMap::default();
    let mut field = ObstacleField::new();
    field.obstacles.push(obstacle(-16_000, -250_000)); // strikes the left ship
    field.obstacles.push(obstacle(200_000, -250_000)); // would miss, but after the strike
    let (struck, _) = field.advance(50, false, -16_000, 16_000, &map);
    assert!(struck);
    assert_eq!(field.obstacles[0].y, -257_500); // the striking one fell
    assert_eq!(field.obstacles[1].y, -250_000); // the rest are untouched
}

#[test]
fn strike_range_boundary_is_exclusive() {
    let map = GameMap::default();
    // strike range is 0.8 sprites = 25600 milli-units, strictly
    let mut field = ObstacleField::new();
    field.obstacles.push(obstacle(64_000 - 25_600, -250_000)); // exactly at range
    let (struck, captures) = field.advance(50, false, -64_000, 64_000, &map);
    assert!(!struck); // not a strike...
    assert_eq!(captures, 1); // ...so, inside the gap, a capture
    let mut field2 = ObstacleField::new();
    field2.obstacles.push(obstacle(64_000 - 25_599, -250_000)); // one inside
    let (struck, captures) = field2.advance(50, false, -64_000, 64_000, &map);
    assert!(struck);
    assert_eq!(captures, 0);
}

#[test]
fn landing_exactly_on_the_line_is_not_a_crossing() {
    let map = GameMap::default();
    let mut field = ObstacleField::new();
    field.obstacles.push(obstacle(0, -250_000));
    // 40 game ms at 150 milli/ms puts it exactly on the line: no crossing
    let (struck, captures) = field.advance(40, false, -64_000, 64_000, &map);
    assert!(!struck);
    assert_eq!(captures, 0);
    assert_eq!(field.obstacles[0].y, -256_000);
    assert!(field.obstacles[0].visible);
    // and the next frame starts at the line, not above it: still no crossing
    let (struck, captures) = field.advance(40, false, -64_000, 64_000, &map);
    assert!(!struck);
    assert_eq!(captures, 0);
}

#[test]
fn missed_crossings_neither_score_nor_kill() {
    let map = GameMap::default();
    let mut field = ObstacleField::new();
    field.obstacles.push(obstacle(200_000, -250_000)); // far right of both ships
    let (struck, captures) = field.advance(50, false, -16_000, 16_000, &map);
    assert!(!struck);
    assert_eq!(captures, 0);
    assert!(field.obstacles[0].visible);
    assert!(!field.obstacles[0].captured);
}

#[test]
fn advance_skipped_once_dead() {
    let map = GameMap::default();
    let mut field = ObstacleField::new();
    field.obstacles.push(obstacle(0, -250_000));
    let (struck, captures) = field.advance(50, true, -64_000, 64_000, &map);
    assert!(!struck);
    assert_eq!(captures, 0);
    assert_eq!(field.obstacles[0].y, -250_000);
}

#[test]
fn cleanup_removes_obstacles_below_the_threshold() {
    let map = GameMap::default();
    let mut field = ObstacleField::new();
    field.obstacles.push(obstacle(0, -544_000)); // exactly at the threshold: kept
    field.obstacles.push(obstacle(32_000, -545_000)); // below: removed
    field.obstacles.push(obstacle(64_000, 100_000)); // far above: kept
    field.cleanup(&map);
    let xs: Vec<i64> = field.obstacles.iter().map(|o| o.x).collect();
    assert_eq!(xs, vec![0, 64_000]);
}

#[test]
fn take_captured_consumes_marks_exactly_once() {
    let mut field = ObstacleField::new();
    field.obstacles.push(Obstacle { x: 0, y: 0, visible: false, captured: true });
    field.obstacles.push(Obstacle { x: 1, y: 0, visible: true, captured: false });
    field.obstacles.push(Obstacle { x: 2, y: 0, visible: false, captured: true });
    assert_eq!(field.take_captured(), 2);
    assert!(field.obstacles.iter().all(|o| !o.captured));
    assert_eq!(field.take_captured(), 0);
}
