use he_walks_unseen::{
    Component, Direction, Entity, EntityBuilder, EntityId, EntityType, PatrolData, Position,
    RiftData, SpatialPos, TimeSlice, VisionData,
};

#[test]
fn test_component_blocks_movement() {
    assert!(Component::BlocksMovement.blocks_movement());
    assert!(!Component::BlocksVision.blocks_movement());
}

#[test]
fn test_component_blocks_vision() {
    assert!(Component::BlocksVision.blocks_vision());
    assert!(!Component::BlocksMovement.blocks_vision());
}

#[test]
fn test_component_is_time_persistent() {
    assert!(Component::TimePersistent.is_time_persistent());
    assert!(!Component::Exit.is_time_persistent());
}

#[test]
fn test_patrol_position_at_loops() {
    let patrol = PatrolData::new(vec![SpatialPos::new(0, 0), SpatialPos::new(1, 0)], true);
    assert_eq!(patrol.position_at(0), SpatialPos::new(0, 0));
    assert_eq!(patrol.position_at(1), SpatialPos::new(1, 0));
    assert_eq!(patrol.position_at(2), SpatialPos::new(0, 0));
}

#[test]
fn test_patrol_position_at_no_loop() {
    let patrol = PatrolData::new(vec![SpatialPos::new(0, 0), SpatialPos::new(1, 0)], false);
    assert_eq!(patrol.position_at(0), SpatialPos::new(0, 0));
    assert_eq!(patrol.position_at(1), SpatialPos::new(1, 0));
    assert_eq!(patrol.position_at(2), SpatialPos::new(1, 0));
}

#[test]
fn test_vision_data_default_fov() {
    let vision = VisionData::new(3, Direction::South);
    assert_eq!(vision.light_speed, 3);
    assert_eq!(vision.facing, Direction::South);
    assert_eq!(vision.fov_degrees, 90);
}

#[test]
fn test_vision_data_omnidirectional() {
    let vision = VisionData::omnidirectional(5);
    assert_eq!(vision.light_speed, 5);
    assert_eq!(vision.fov_degrees, 360);
}

#[test]
fn test_rift_one_way() {
    let target = Position::new(1, 2, 3);
    let rift = RiftData::one_way(target);
    assert!(!rift.bidirectional);
    assert_eq!(rift.target, target);
}

#[test]
fn test_rift_bidirectional() {
    let target = Position::new(1, 2, 3);
    let rift = RiftData::bidirectional(target);
    assert!(rift.bidirectional);
    assert_eq!(rift.target, target);
}

#[test]
fn test_entity_creation_generates_id() {
    let entity = Entity::new(Position::new(0, 0, 0), vec![]);
    assert_ne!(entity.id, 0);
}

#[test]
fn test_entity_with_specific_id() {
    let id: EntityId = 42;
    let entity = Entity::with_id(id, Position::new(1, 2, 3), vec![]);
    assert_eq!(entity.id, id);
}

#[test]
fn test_entity_has_component() {
    let entity = Entity::new(Position::new(0, 0, 0), vec![Component::BlocksMovement]);
    assert!(entity.has(|c| matches!(c, Component::BlocksMovement)));
}

#[test]
fn test_entity_blocks_movement() {
    let entity = Entity::new(Position::new(0, 0, 0), vec![Component::BlocksMovement]);
    assert!(entity.blocks_movement());
}

#[test]
fn test_entity_blocks_vision() {
    let entity = Entity::new(Position::new(0, 0, 0), vec![Component::BlocksVision]);
    assert!(entity.blocks_vision());
}

#[test]
fn test_entity_is_time_persistent() {
    let entity = Entity::new(Position::new(0, 0, 0), vec![Component::TimePersistent]);
    assert!(entity.is_time_persistent());
}

#[test]
fn test_entity_is_player() {
    let entity = Entity::player(Position::new(1, 1, 0));
    assert!(entity.is_player());
}

#[test]
fn test_entity_is_enemy() {
    let patrol = PatrolData::new(vec![SpatialPos::new(0, 0)], true);
    let vision = VisionData::new(2, Direction::North);
    let entity = Entity::enemy(Position::new(1, 1, 0), patrol, vision);
    assert!(entity.is_enemy());
}

#[test]
fn test_entity_type_precedence_player() {
    let entity = Entity::player(Position::new(0, 0, 0));
    assert_eq!(entity.entity_type(), EntityType::Player);
}

#[test]
fn test_entity_type_precedence_enemy() {
    let patrol = PatrolData::new(vec![SpatialPos::new(0, 0)], true);
    let vision = VisionData::new(1, Direction::North);
    let entity = Entity::enemy(Position::new(0, 0, 0), patrol, vision);
    assert_eq!(entity.entity_type(), EntityType::Enemy);
}

#[test]
fn test_entity_type_precedence_wall() {
    let entity = Entity::wall(Position::new(0, 0, 0));
    assert_eq!(entity.entity_type(), EntityType::Wall);
}

#[test]
fn test_entity_type_floor() {
    let entity = Entity::floor(Position::new(0, 0, 0));
    assert_eq!(entity.entity_type(), EntityType::Floor);
}

#[test]
fn test_entity_type_custom() {
    let entity = Entity::new(Position::new(0, 0, 0), vec![Component::BlocksMovement]);
    assert_eq!(entity.entity_type(), EntityType::Custom);
}

#[test]
fn test_entity_at_position_preserves_id() {
    let entity = Entity::new(Position::new(0, 0, 0), vec![]);
    let moved = entity.at_position(Position::new(1, 1, 1));
    assert_eq!(entity.id, moved.id);
}

#[test]
fn test_entity_propagate_increments_time() {
    let entity = Entity::new(Position::new(0, 0, 0), vec![]);
    let next = entity.propagate_to_next_time();
    assert_eq!(next.position.t, 1);
}

#[test]
fn test_factory_wall_components() {
    let entity = Entity::wall(Position::new(0, 0, 0));
    assert!(entity.blocks_movement());
    assert!(entity.blocks_vision());
    assert!(entity.is_time_persistent());
}

#[test]
fn test_factory_enemy_components() {
    let patrol = PatrolData::new(vec![SpatialPos::new(0, 0)], true);
    let vision = VisionData::new(1, Direction::North);
    let entity = Entity::enemy(Position::new(0, 0, 0), patrol, vision);
    assert!(entity.is_enemy());
    assert!(entity.is_time_persistent());
}

#[test]
fn test_builder_chaining() {
    let entity = EntityBuilder::new(Position::new(0, 0, 0))
        .blocking()
        .opaque()
        .persistent()
        .with_name("wall")
        .build();
    assert!(entity.blocks_movement());
    assert!(entity.blocks_vision());
    assert!(entity.is_time_persistent());
    assert_eq!(entity.name.as_deref(), Some("wall"));
}

#[test]
fn test_time_slice_creation() {
    let slice = TimeSlice::new(0, 10, 10);
    assert_eq!(slice.t, 0);
    assert_eq!(slice.width, 10);
    assert_eq!(slice.height, 10);
}

#[test]
fn test_in_bounds() {
    let slice = TimeSlice::new(0, 5, 5);
    assert!(slice.in_bounds(SpatialPos::new(0, 0)));
    assert!(!slice.in_bounds(SpatialPos::new(5, 0)));
    assert!(!slice.in_bounds(SpatialPos::new(-1, 0)));
}

#[test]
fn test_add_entity() {
    let mut slice = TimeSlice::new(0, 5, 5);
    let entity = Entity::wall(Position::new(1, 1, 0));
    let id = entity.id;
    slice.add_entity(entity);
    assert!(slice.entity(id).is_some());
    assert_eq!(slice.entity_count(), 1);
}

#[test]
fn test_remove_entity() {
    let mut slice = TimeSlice::new(0, 5, 5);
    let entity = Entity::wall(Position::new(1, 1, 0));
    let id = entity.id;
    slice.add_entity(entity);
    let removed = slice.remove_entity(id);
    assert!(removed.is_some());
    assert!(slice.entity(id).is_none());
}

#[test]
fn test_entity_ids_at_empty_returns_empty_vec() {
    let slice = TimeSlice::new(0, 5, 5);
    let ids = slice.entity_ids_at(SpatialPos::new(1, 1));
    assert!(ids.is_empty());
}

#[test]
fn test_entity_ids_at_multiple() {
    let mut slice = TimeSlice::new(0, 5, 5);
    let a = Entity::wall(Position::new(1, 1, 0));
    let b = Entity::exit(Position::new(1, 1, 0));
    let aid = a.id;
    let bid = b.id;
    slice.add_entity(a);
    slice.add_entity(b);
    let ids = slice.entity_ids_at(SpatialPos::new(1, 1));
    assert!(ids.contains(&aid));
    assert!(ids.contains(&bid));
}

#[test]
fn time_slice_test_entities_at() {
    let mut slice = TimeSlice::new(0, 5, 5);
    let entity = Entity::wall(Position::new(1, 1, 0));
    let id = entity.id;
    slice.add_entity(entity);
    let entities = slice.entities_at(SpatialPos::new(1, 1));
    assert_eq!(entities.len(), 1);
    assert_eq!(entities[0].id, id);
}

#[test]
fn test_move_entity_updates_index() {
    let mut slice = TimeSlice::new(0, 5, 5);
    let entity = Entity::wall(Position::new(1, 1, 0));
    let id = entity.id;
    slice.add_entity(entity);
    let moved = slice.move_entity(id, SpatialPos::new(2, 1));
    assert!(moved);
    assert!(slice.entities_at(SpatialPos::new(1, 1)).is_empty());
    assert_eq!(slice.entities_at(SpatialPos::new(2, 1)).len(), 1);
}

#[test]
fn test_blocks_movement_at() {
    let mut slice = TimeSlice::new(0, 5, 5);
    let entity = Entity::wall(Position::new(1, 1, 0));
    slice.add_entity(entity);
    assert!(slice.blocks_movement_at(SpatialPos::new(1, 1)));
}

#[test]
fn test_blocks_vision_at() {
    let mut slice = TimeSlice::new(0, 5, 5);
    let entity = Entity::wall(Position::new(1, 1, 0));
    slice.add_entity(entity);
    assert!(slice.blocks_vision_at(SpatialPos::new(1, 1)));
}

#[test]
fn time_slice_test_is_walkable() {
    let mut slice = TimeSlice::new(0, 5, 5);
    let entity = Entity::wall(Position::new(1, 1, 0));
    slice.add_entity(entity);
    assert!(!slice.is_walkable(SpatialPos::new(1, 1)));
    assert!(slice.is_walkable(SpatialPos::new(2, 2)));
}

#[test]
fn test_has_rift_at() {
    let mut slice = TimeSlice::new(0, 5, 5);
    let entity = Entity::rift(Position::new(1, 1, 0), Position::new(2, 2, 0), false);
    slice.add_entity(entity);
    assert!(slice.has_rift_at(SpatialPos::new(1, 1)));
}

#[test]
fn test_rift_target_at() {
    let mut slice = TimeSlice::new(0, 5, 5);
    let target = Position::new(2, 2, 0);
    let entity = Entity::rift(Position::new(1, 1, 0), target, false);
    slice.add_entity(entity);
    assert_eq!(slice.rift_target_at(SpatialPos::new(1, 1)), Some(target));
}

#[test]
fn test_is_exit_at() {
    let mut slice = TimeSlice::new(0, 5, 5);
    let entity = Entity::exit(Position::new(1, 1, 0));
    slice.add_entity(entity);
    assert!(slice.is_exit_at(SpatialPos::new(1, 1)));
}

#[test]
fn test_player_lookup() {
    let mut slice = TimeSlice::new(0, 5, 5);
    let player = Entity::player(Position::new(1, 1, 0));
    slice.add_entity(player);
    assert!(slice.player().is_some());
}

#[test]
fn test_enemies_lookup() {
    let mut slice = TimeSlice::new(0, 5, 5);
    let patrol = PatrolData::new(vec![SpatialPos::new(0, 0)], true);
    let vision = VisionData::new(1, Direction::North);
    let enemy = Entity::enemy(Position::new(1, 1, 0), patrol, vision);
    slice.add_entity(enemy);
    assert_eq!(slice.enemies().len(), 1);
}

#[test]
fn test_clear() {
    let mut slice = TimeSlice::new(0, 5, 5);
    let entity = Entity::wall(Position::new(1, 1, 0));
    slice.add_entity(entity);
    slice.clear();
    assert_eq!(slice.entity_count(), 0);
}

#[test]
fn test_add_entity_overwrites_existing() {
    let mut slice = TimeSlice::new(0, 5, 5);
    let mut entity = Entity::wall(Position::new(1, 1, 0));
    let id = entity.id;
    slice.add_entity(entity.clone());
    entity.position = Position::new(2, 2, 0);
    slice.add_entity(entity);
    let stored = slice.entity(id).unwrap();
    assert_eq!(stored.position.spatial(), SpatialPos::new(2, 2));
}
