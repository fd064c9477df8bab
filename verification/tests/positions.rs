use he_walks_unseen::{bresenham_line, manhattan_distance, Direction, Position, SpatialPos};

#[test]
fn test_position_creation() {
    let pos = Position::new(1, 2, 3);
    assert_eq!(pos.x, 1);
    assert_eq!(pos.y, 2);
    assert_eq!(pos.t, 3);
}

#[test]
fn test_move_direction_north_south_east_west() {
    let pos = Position::new(5, 5, 0);
    assert_eq!(pos.move_dir(Direction::North), Position::new(5, 4, 0));
    assert_eq!(pos.move_dir(Direction::South), Position::new(5, 6, 0));
    assert_eq!(pos.move_dir(Direction::East), Position::new(6, 5, 0));
    assert_eq!(pos.move_dir(Direction::West), Position::new(4, 5, 0));
}

#[test]
fn test_tick_advances_time_only() {
    let pos = Position::new(1, 2, 3);
    assert_eq!(pos.tick(), Position::new(1, 2, 4));
}

#[test]
fn test_step_moves_and_ticks() {
    let pos = Position::new(1, 2, 3);
    assert_eq!(pos.step(Direction::East), Position::new(2, 2, 4));
}

#[test]
fn test_wait_equals_tick() {
    let pos = Position::new(0, 0, 0);
    assert_eq!(pos.wait(), pos.tick());
}

#[test]
fn position_test_manhattan_distance() {
    let a = Position::new(0, 0, 0);
    let b = Position::new(3, 4, 5);
    assert_eq!(a.manhattan_distance(&b), 7);
}

#[test]
fn test_same_spacetime() {
    let a = Position::new(1, 2, 3);
    let b = Position::new(1, 2, 3);
    let c = Position::new(1, 2, 4);
    assert!(a.same_spacetime(&b));
    assert!(!a.same_spacetime(&c));
}

#[test]
fn test_same_space_different_time() {
    let a = Position::new(1, 2, 3);
    let b = Position::new(1, 2, 4);
    assert!(a.same_space(&b));
    assert!(!a.same_spacetime(&b));
}

#[test]
fn test_is_adjacent() {
    let a = Position::new(1, 1, 0);
    let b = Position::new(2, 1, 0);
    let c = Position::new(1, 2, 0);
    let d = Position::new(2, 2, 0);
    assert!(a.is_adjacent(&b));
    assert!(a.is_adjacent(&c));
    assert!(!a.is_adjacent(&d));
}

#[test]
fn test_is_valid_step_from() {
    let current = Position::new(1, 1, 0);
    let same_space = Position::new(1, 1, 1);
    let adjacent = Position::new(2, 1, 1);
    let diagonal = Position::new(2, 2, 1);
    let wrong_time = Position::new(2, 1, 2);
    assert!(same_space.is_valid_step_from(&current));
    assert!(adjacent.is_valid_step_from(&current));
    assert!(!diagonal.is_valid_step_from(&current));
    assert!(!wrong_time.is_valid_step_from(&current));
}

#[test]
fn test_direction_delta() {
    assert_eq!(Direction::North.delta(), (0, -1));
    assert_eq!(Direction::South.delta(), (0, 1));
    assert_eq!(Direction::East.delta(), (1, 0));
    assert_eq!(Direction::West.delta(), (-1, 0));
}

#[test]
fn test_direction_opposite() {
    assert_eq!(Direction::North.opposite(), Direction::South);
    assert_eq!(Direction::South.opposite(), Direction::North);
    assert_eq!(Direction::East.opposite(), Direction::West);
    assert_eq!(Direction::West.opposite(), Direction::East);
}

#[test]
fn test_direction_from_delta() {
    assert_eq!(Direction::from_delta(0, -1), Some(Direction::North));
    assert_eq!(Direction::from_delta(0, 1), Some(Direction::South));
    assert_eq!(Direction::from_delta(1, 0), Some(Direction::East));
    assert_eq!(Direction::from_delta(-1, 0), Some(Direction::West));
    assert_eq!(Direction::from_delta(1, 1), None);
}

#[test]
fn test_bresenham_horizontal() {
    let points = bresenham_line(0, 0, 3, 0);
    assert_eq!(points, vec![(0, 0), (1, 0), (2, 0), (3, 0)]);
}

#[test]
fn test_bresenham_vertical() {
    let points = bresenham_line(0, 0, 0, 3);
    assert_eq!(points, vec![(0, 0), (0, 1), (0, 2), (0, 3)]);
}

#[test]
fn test_bresenham_diagonal() {
    let points = bresenham_line(0, 0, 3, 3);
    assert_eq!(points, vec![(0, 0), (1, 1), (2, 2), (3, 3)]);
}

#[test]
fn light_cone_test_manhattan_distance() {
    assert_eq!(manhattan_distance(SpatialPos::new(0, 0), SpatialPos::new(3, 4)), 7);
}
