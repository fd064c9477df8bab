use he_walks_unseen::{Position, WorldLine, WorldLineError};

#[test]
fn test_world_line_new() {
    let wl = WorldLine::new(Position::new(0, 0, 0));
    assert_eq!(wl.len(), 1);
    assert_eq!(wl.current(), Some(Position::new(0, 0, 0)));
}

#[test]
fn test_world_line_empty() {
    let wl = WorldLine::empty();
    assert!(wl.is_empty());
    assert_eq!(wl.current(), None);
}

#[test]
fn test_world_line_extend_valid() {
    let mut wl = WorldLine::new(Position::new(0, 0, 0));
    wl.extend(Position::new(1, 0, 1)).unwrap();
    assert_eq!(wl.len(), 2);
}

#[test]
fn test_world_line_extend_self_intersection() {
    let mut wl = WorldLine::new(Position::new(0, 0, 0));
    wl.extend(Position::new(0, 0, 1)).unwrap();
    let err = wl.extend_via_rift(Position::new(0, 0, 0)).unwrap_err();
    assert!(matches!(err, WorldLineError::SelfIntersection { .. }));
}

#[test]
fn test_world_line_extend_invalid_step_wrong_time() {
    let mut wl = WorldLine::new(Position::new(0, 0, 0));
    let err = wl.extend(Position::new(1, 0, 2)).unwrap_err();
    assert!(matches!(err, WorldLineError::InvalidStep { .. }));
}

#[test]
fn test_world_line_extend_invalid_step_not_adjacent() {
    let mut wl = WorldLine::new(Position::new(0, 0, 0));
    let err = wl.extend(Position::new(2, 0, 1)).unwrap_err();
    assert!(matches!(err, WorldLineError::InvalidStep { .. }));
}

#[test]
fn test_world_line_extend_wait() {
    let mut wl = WorldLine::new(Position::new(0, 0, 0));
    wl.extend(Position::new(0, 0, 1)).unwrap();
    assert_eq!(wl.current(), Some(Position::new(0, 0, 1)));
}

#[test]
fn test_world_line_extend_via_rift_to_past() {
    let mut wl = WorldLine::new(Position::new(1, 1, 1));
    wl.extend_via_rift(Position::new(0, 0, 0)).unwrap();
    assert_eq!(wl.current(), Some(Position::new(0, 0, 0)));
}

#[test]
fn test_world_line_extend_via_rift_to_future() {
    let mut wl = WorldLine::new(Position::new(1, 1, 1));
    wl.extend_via_rift(Position::new(2, 2, 5)).unwrap();
    assert_eq!(wl.current_time(), Some(5));
}

#[test]
fn test_world_line_rift_then_normal_move() {
    let mut wl = WorldLine::new(Position::new(1, 1, 1));
    wl.extend_via_rift(Position::new(0, 0, 0)).unwrap();
    wl.extend(Position::new(0, 0, 1)).unwrap();
    assert_eq!(wl.current(), Some(Position::new(0, 0, 1)));
}

#[test]
fn test_world_line_would_intersect() {
    let mut wl = WorldLine::new(Position::new(0, 0, 0));
    wl.extend(Position::new(1, 0, 1)).unwrap();
    assert!(wl.would_intersect(Position::new(0, 0, 0)));
}

#[test]
fn test_world_line_would_intersect_after_rift() {
    let mut wl = WorldLine::new(Position::new(0, 0, 0));
    wl.extend_via_rift(Position::new(1, 1, 0)).unwrap();
    assert!(wl.would_intersect(Position::new(1, 1, 0)));
}

#[test]
fn test_world_line_is_valid_step() {
    let mut wl = WorldLine::new(Position::new(0, 0, 0));
    assert!(wl.is_valid_step(Position::new(0, 0, 1)));
    assert!(wl.is_valid_step(Position::new(1, 0, 1)));
    assert!(!wl.is_valid_step(Position::new(2, 0, 1)));
    wl.extend(Position::new(1, 0, 1)).unwrap();
    assert!(wl.is_valid_step(Position::new(1, 0, 2)));
}

#[test]
fn test_world_line_contains() {
    let wl = WorldLine::new(Position::new(0, 0, 0));
    assert!(wl.contains(Position::new(0, 0, 0)));
    assert!(!wl.contains(Position::new(1, 0, 0)));
}

#[test]
fn test_world_line_positions_at_time_single() {
    let wl = WorldLine::new(Position::new(0, 0, 0));
    let positions = wl.positions_at_time(0);
    assert_eq!(positions.len(), 1);
}

#[test]
fn test_world_line_positions_at_time_multiple() {
    let mut wl = WorldLine::new(Position::new(0, 0, 0));
    wl.extend(Position::new(1, 0, 1)).unwrap();
    wl.extend_via_rift(Position::new(2, 2, 0)).unwrap();
    let positions = wl.positions_at_time(0);
    assert_eq!(positions.len(), 2);
}

#[test]
fn test_world_line_positions_at_time_none() {
    let wl = WorldLine::new(Position::new(0, 0, 0));
    let positions = wl.positions_at_time(5);
    assert!(positions.is_empty());
}

#[test]
fn test_world_line_time_range() {
    let mut wl = WorldLine::new(Position::new(0, 0, 0));
    wl.extend(Position::new(1, 0, 1)).unwrap();
    assert_eq!(wl.time_range(), Some((0, 1)));
}

#[test]
fn test_world_line_time_range_non_monotonic() {
    let mut wl = WorldLine::new(Position::new(0, 0, 1));
    wl.extend_via_rift(Position::new(1, 1, 0)).unwrap();
    assert_eq!(wl.time_range(), Some((0, 1)));
}

#[test]
fn test_world_line_visited_times() {
    let mut wl = WorldLine::new(Position::new(0, 0, 0));
    wl.extend(Position::new(1, 0, 1)).unwrap();
    wl.extend_via_rift(Position::new(2, 2, 0)).unwrap();
    assert_eq!(wl.visited_times(), vec![0, 1]);
}

#[test]
fn test_world_line_current_time() {
    let mut wl = WorldLine::new(Position::new(0, 0, 0));
    wl.extend(Position::new(1, 0, 1)).unwrap();
    assert_eq!(wl.current_time(), Some(1));
}

#[test]
fn test_world_line_current_turn() {
    let mut wl = WorldLine::new(Position::new(0, 0, 0));
    wl.extend(Position::new(1, 0, 1)).unwrap();
    assert_eq!(wl.current_turn(), Some(1));
}

#[test]
fn test_world_line_position_at_turn() {
    let mut wl = WorldLine::new(Position::new(0, 0, 0));
    wl.extend(Position::new(1, 0, 1)).unwrap();
    assert_eq!(wl.position_at_turn(1), Some(Position::new(1, 0, 1)));
}

#[test]
fn test_world_line_reset() {
    let mut wl = WorldLine::new(Position::new(0, 0, 0));
    wl.extend(Position::new(1, 0, 1)).unwrap();
    wl.reset(Position::new(2, 2, 0));
    assert_eq!(wl.len(), 1);
    assert_eq!(wl.current(), Some(Position::new(2, 2, 0)));
}

#[test]
fn test_world_line_clear() {
    let mut wl = WorldLine::new(Position::new(0, 0, 0));
    wl.clear();
    assert!(wl.is_empty());
}

#[test]
fn test_world_line_try_extend() {
    let mut wl = WorldLine::new(Position::new(0, 0, 0));
    assert!(wl.try_extend(Position::new(1, 0, 1)));
    assert!(!wl.try_extend(Position::new(3, 0, 2)));
}

#[test]
fn test_world_line_iteration_order() {
    let mut wl = WorldLine::new(Position::new(0, 0, 0));
    wl.extend(Position::new(1, 0, 1)).unwrap();
    wl.extend(Position::new(2, 0, 2)).unwrap();
    let positions: Vec<Position> = wl.iter();
    assert_eq!(
        positions,
        vec![
            Position::new(0, 0, 0),
            Position::new(1, 0, 1),
            Position::new(2, 0, 2)
        ]
    );
}
