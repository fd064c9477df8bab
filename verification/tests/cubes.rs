use he_walks_unseen::{
    CubeError, Direction, Entity, PatrolData, Position, SpatialPos, TimeCube, VisionData,
};

#[test]
fn test_cube_creation() {
    let cube = TimeCube::new(10, 10, 3);
    assert_eq!(cube.width, 10);
    assert_eq!(cube.height, 10);
    assert_eq!(cube.time_depth, 3);
    assert_eq!(cube.slices().len(), 3);
}

#[test]
fn test_cube_in_bounds_valid() {
    let cube = TimeCube::new(10, 10, 3);
    assert!(cube.in_bounds(Position::new(0, 0, 0)));
    assert!(cube.in_bounds(Position::new(9, 9, 2)));
}

#[test]
fn test_cube_in_bounds_invalid_negative() {
    let cube = TimeCube::new(10, 10, 3);
    assert!(!cube.in_bounds(Position::new(-1, 0, 0)));
    assert!(!cube.in_bounds(Position::new(0, -1, 0)));
    assert!(!cube.in_bounds(Position::new(0, 0, -1)));
}

#[test]
fn test_cube_in_bounds_invalid_overflow() {
    let cube = TimeCube::new(10, 10, 3);
    assert!(!cube.in_bounds(Position::new(10, 0, 0)));
    assert!(!cube.in_bounds(Position::new(0, 10, 0)));
    assert!(!cube.in_bounds(Position::new(0, 0, 3)));
}

#[test]
fn test_validate_position_error_message() {
    let cube = TimeCube::new(2, 2, 2);
    let err = cube.validate_position(Position::new(3, 0, 0)).unwrap_err();
    match err {
        CubeError::OutOfBounds { max_x, .. } => assert_eq!(max_x, 2),
        _ => panic!("expected OutOfBounds"),
    }
}

#[test]
fn test_spawn_entity() {
    let mut cube = TimeCube::new(5, 5, 2);
    let entity = Entity::wall(Position::new(1, 1, 0));
    let id = entity.id;
    cube.spawn(entity).unwrap();
    assert!(cube.entity_at_time(id, 0).is_some());
}

#[test]
fn test_spawn_entity_already_exists() {
    let mut cube = TimeCube::new(5, 5, 2);
    let entity = Entity::wall(Position::new(1, 1, 0));
    let id = entity.id;
    cube.spawn(entity.clone()).unwrap();
    let err = cube.spawn(entity).unwrap_err();
    assert_eq!(err, CubeError::EntityAlreadyExists { id, t: 0 });
}

#[test]
fn test_spawn_out_of_bounds() {
    let mut cube = TimeCube::new(5, 5, 2);
    let entity = Entity::wall(Position::new(10, 1, 0));
    assert!(matches!(
        cube.spawn(entity).unwrap_err(),
        CubeError::OutOfBounds { .. }
    ));
}

#[test]
fn test_spawn_and_propagate() {
    let mut cube = TimeCube::new(5, 5, 3);
    let entity = Entity::wall(Position::new(1, 1, 0));
    let id = entity.id;
    cube.spawn_and_propagate(entity).unwrap();
    assert!(cube.entity_at_time(id, 0).is_some());
    assert!(cube.entity_at_time(id, 1).is_some());
    assert!(cube.entity_at_time(id, 2).is_some());
}

#[test]
fn test_spawn_and_propagate_conflict() {
    let mut cube = TimeCube::new(5, 5, 3);
    let entity = Entity::wall(Position::new(1, 1, 0));
    let id = entity.id;
    cube.spawn_and_propagate(entity.clone()).unwrap();
    let err = cube.spawn_and_propagate(entity).unwrap_err();
    assert_eq!(err, CubeError::EntityAlreadyExists { id, t: 0 });
}

#[test]
fn test_spawn_or_replace() {
    let mut cube = TimeCube::new(5, 5, 2);
    let mut entity = Entity::wall(Position::new(1, 1, 0));
    let id = entity.id;
    cube.spawn(entity.clone()).unwrap();
    entity.position = Position::new(2, 2, 0);
    cube.spawn_or_replace(entity).unwrap();
    let stored = cube.entity_at_time(id, 0).unwrap();
    assert_eq!(stored.position.spatial(), SpatialPos::new(2, 2));
}

#[test]
fn test_despawn_at() {
    let mut cube = TimeCube::new(5, 5, 2);
    let entity = Entity::wall(Position::new(1, 1, 0));
    let id = entity.id;
    cube.spawn(entity).unwrap();
    let removed = cube.despawn_at(id, 0).unwrap();
    assert_eq!(removed.id, id);
    assert!(cube.entity_at_time(id, 0).is_none());
}

#[test]
fn test_despawn_all() {
    let mut cube = TimeCube::new(5, 5, 3);
    let entity = Entity::wall(Position::new(1, 1, 0));
    let id = entity.id;
    cube.spawn_and_propagate(entity).unwrap();
    let removed = cube.despawn_all(id);
    assert_eq!(removed.len(), 3);
    assert!(cube.entity_at_time(id, 0).is_none());
    assert!(cube.entity_at_time(id, 1).is_none());
    assert!(cube.entity_at_time(id, 2).is_none());
}

#[test]
fn time_cube_test_entities_at() {
    let mut cube = TimeCube::new(5, 5, 2);
    let entity = Entity::wall(Position::new(1, 1, 0));
    let id = entity.id;
    cube.spawn(entity).unwrap();
    let entities = cube.entities_at(Position::new(1, 1, 0));
    assert_eq!(entities.len(), 1);
    assert_eq!(entities[0].id, id);
}

#[test]
fn test_blocks_movement() {
    let mut cube = TimeCube::new(5, 5, 2);
    let entity = Entity::wall(Position::new(1, 1, 0));
    cube.spawn(entity).unwrap();
    assert!(cube.blocks_movement(Position::new(1, 1, 0)));
}

#[test]
fn test_blocks_vision() {
    let mut cube = TimeCube::new(5, 5, 2);
    let entity = Entity::wall(Position::new(1, 1, 0));
    cube.spawn(entity).unwrap();
    assert!(cube.blocks_vision(Position::new(1, 1, 0)));
}

#[test]
fn time_cube_test_is_walkable() {
    let mut cube = TimeCube::new(5, 5, 2);
    let entity = Entity::wall(Position::new(1, 1, 0));
    cube.spawn(entity).unwrap();
    assert!(!cube.is_walkable(Position::new(1, 1, 0)));
    assert!(cube.is_walkable(Position::new(2, 2, 0)));
}

#[test]
fn test_has_rift() {
    let mut cube = TimeCube::new(5, 5, 2);
    let entity = Entity::rift(Position::new(1, 1, 0), Position::new(2, 2, 0), false);
    cube.spawn(entity).unwrap();
    assert!(cube.has_rift(Position::new(1, 1, 0)));
}

#[test]
fn test_rift_target() {
    let mut cube = TimeCube::new(5, 5, 2);
    let target = Position::new(2, 2, 0);
    let entity = Entity::rift(Position::new(1, 1, 0), target, false);
    cube.spawn(entity).unwrap();
    assert_eq!(cube.rift_target(Position::new(1, 1, 0)), Some(target));
}

#[test]
fn test_is_exit() {
    let mut cube = TimeCube::new(5, 5, 2);
    let entity = Entity::exit(Position::new(1, 1, 0));
    cube.spawn(entity).unwrap();
    assert!(cube.is_exit(Position::new(1, 1, 0)));
}

#[test]
fn test_player_at() {
    let mut cube = TimeCube::new(5, 5, 2);
    let player = Entity::player(Position::new(1, 1, 0));
    cube.spawn(player).unwrap();
    assert!(cube.player_at(0).is_some());
}

#[test]
fn test_enemies_at() {
    let mut cube = TimeCube::new(5, 5, 2);
    let patrol = PatrolData::new(vec![SpatialPos::new(0, 0)], true);
    let vision = VisionData::new(1, Direction::North);
    let enemy = Entity::enemy(Position::new(1, 1, 0), patrol, vision);
    cube.spawn(enemy).unwrap();
    assert_eq!(cube.enemies_at(0).len(), 1);
}

#[test]
fn test_propagate_slice() {
    let mut cube = TimeCube::new(5, 5, 3);
    let entity = Entity::wall(Position::new(1, 1, 0));
    let id = entity.id;
    cube.spawn(entity).unwrap();
    cube.propagate_slice(0).unwrap();
    assert!(cube.entity_at_time(id, 1).is_some());
}

#[test]
fn test_propagate_all() {
    let mut cube = TimeCube::new(5, 5, 3);
    let entity = Entity::wall(Position::new(1, 1, 0));
    let id = entity.id;
    cube.spawn(entity).unwrap();
    cube.propagate_all().unwrap();
    assert!(cube.entity_at_time(id, 1).is_some());
    assert!(cube.entity_at_time(id, 2).is_some());
}

#[test]
fn test_patrol_enemy_propagates_along_path() {
    let mut cube = TimeCube::new(5, 5, 3);
    let patrol = PatrolData::new(vec![SpatialPos::new(1, 1), SpatialPos::new(2, 1)], true);
    let vision = VisionData::omnidirectional(3);
    let enemy = Entity::enemy(Position::new(1, 1, 0), patrol, vision);
    let id = enemy.id;
    cube.spawn(enemy).unwrap();
    cube.propagate_all().unwrap();
    let at1 = cube.entity_at_time(id, 1).unwrap();
    assert_eq!(at1.position.spatial(), SpatialPos::new(2, 1));
    let at2 = cube.entity_at_time(id, 2).unwrap();
    assert_eq!(at2.position.spatial(), SpatialPos::new(1, 1));
}

#[test]
fn test_depropagate_removes_from_time_forward() {
    let mut cube = TimeCube::new(5, 5, 4);
    let entity = Entity::wall(Position::new(1, 1, 0));
    let id = entity.id;
    cube.spawn_and_propagate(entity).unwrap();
    let removed = he_walks_unseen::depropagate_entity(&mut cube, id, 2).unwrap();
    assert_eq!(removed, 2);
    assert!(cube.entity_at_time(id, 0).is_some());
    assert!(cube.entity_at_time(id, 1).is_some());
    assert!(cube.entity_at_time(id, 2).is_none());
    assert!(cube.entity_at_time(id, 3).is_none());
}

#[test]
fn test_propagation_clips_out_of_bounds_patrol() {
    let mut cube = TimeCube::new(3, 3, 3);
    let patrol = PatrolData::new(vec![SpatialPos::new(1, 1), SpatialPos::new(7, 7)], true);
    let vision = VisionData::omnidirectional(2);
    let enemy = Entity::enemy(Position::new(1, 1, 0), patrol, vision);
    let id = enemy.id;
    cube.spawn(enemy).unwrap();
    let result = cube.propagate_all().unwrap();
    assert!(cube.entity_at_time(id, 1).is_none());
    assert!(cube.entity_at_time(id, 2).is_some());
    assert!(!result.warnings.is_empty());
}
