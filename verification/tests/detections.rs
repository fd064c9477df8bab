use he_walks_unseen::{
    apply_action, check_detection, Action, ActionOutcome, DetectionConfig, DetectionModel,
    Direction, Entity, GameConfig, GamePhase, GameState, PatrolData, Position, SpatialPos,
    TimeCube, VisionData, WorldLine,
};

#[test]
fn test_detection_discrete_delay_detected() {
    let mut cube = TimeCube::new(10, 10, 5);
    let player_start = Position::new(2, 2, 0);
    cube.spawn(Entity::player(player_start)).unwrap();

    let patrol = PatrolData::new(vec![SpatialPos::new(5, 2)], true);
    let vision = VisionData::omnidirectional(3);
    let enemy = Entity::enemy(Position::new(5, 2, 0), patrol, vision);
    cube.spawn(enemy).unwrap();
    cube.propagate_all().unwrap();

    let mut world_line = WorldLine::new(player_start);
    world_line.extend(Position::new(2, 2, 1)).unwrap();
    world_line.extend(Position::new(2, 2, 2)).unwrap();

    let config = DetectionConfig {
        model: DetectionModel::DiscreteDelay,
        delay_turns: 2,
        vision_radius: 5,
    };

    let result = check_detection(&cube, &world_line, &config);
    assert!(result.is_some());
}

#[test]
fn test_detection_discrete_delay_blocked() {
    let mut cube = TimeCube::new(10, 10, 5);
    let player_start = Position::new(2, 2, 0);
    cube.spawn(Entity::player(player_start)).unwrap();
    cube.spawn(Entity::wall(Position::new(3, 2, 2))).unwrap();

    let patrol = PatrolData::new(vec![SpatialPos::new(5, 2)], true);
    let vision = VisionData::omnidirectional(3);
    let enemy = Entity::enemy(Position::new(5, 2, 0), patrol, vision);
    cube.spawn(enemy).unwrap();
    cube.propagate_all().unwrap();

    let mut world_line = WorldLine::new(player_start);
    world_line.extend(Position::new(2, 2, 1)).unwrap();
    world_line.extend(Position::new(2, 2, 2)).unwrap();

    let config = DetectionConfig {
        model: DetectionModel::DiscreteDelay,
        delay_turns: 2,
        vision_radius: 5,
    };

    let result = check_detection(&cube, &world_line, &config);
    assert!(result.is_none());
}

#[test]
fn test_detection_by_enemy() {
    let mut cube = TimeCube::new(10, 10, 10);
    // Player at (2, 2, 0)
    cube.spawn(Entity::player(Position::new(2, 2, 0))).unwrap();

    // Enemy at (5, 2, 0) with omnidirectional vision, stationary patrol
    let patrol = PatrolData::new(vec![SpatialPos::new(5, 2)], true);
    let vision = VisionData::omnidirectional(3);
    let enemy = Entity::enemy(Position::new(5, 2, 0), patrol, vision);
    cube.spawn(enemy).unwrap();
    cube.propagate_all().unwrap();

    // Configure detection with delay_turns = 2
    let config = GameConfig {
        detection: DetectionConfig {
            model: DetectionModel::DiscreteDelay,
            delay_turns: 2,
            vision_radius: 5,
        },
        ..Default::default()
    };

    let state = GameState::new(cube, config).unwrap();

    // Stay at (2, 2) for turns 0->1->2.
    // At t=2, the enemy sees the player's position from t=0 (delay=2):
    // distance from (5,2) to (2,2) is 3, within vision_radius=5.
    let result = apply_action(&state, Action::Wait).unwrap();
    assert!(result.state.is_active(), "Should still be active after first wait");

    let result = apply_action(&result.state, Action::Wait).unwrap();
    assert!(!result.state.is_active(), "Should be detected at t=2");
    assert_eq!(result.state.phase(), GamePhase::Detected);
    assert!(matches!(result.outcome, ActionOutcome::Detected { .. }));
}

#[test]
fn test_detection_scenario_discrete_delay() {
    let mut cube = TimeCube::new(100, 100, 10);

    let player_start = Position::new(2, 2, 0);
    cube.spawn(Entity::player(player_start)).unwrap();

    let patrol = PatrolData::new(vec![SpatialPos::new(5, 2)], true);
    let vision = VisionData::omnidirectional(3);
    let enemy = Entity::enemy(Position::new(5, 2, 0), patrol, vision);
    cube.spawn(enemy).unwrap();

    cube.propagate_all().unwrap();

    let config = GameConfig {
        detection: DetectionConfig {
            model: DetectionModel::DiscreteDelay,
            delay_turns: 2,
            vision_radius: 5,
        },
        ..GameConfig::default()
    };

    let state = GameState::new(cube, config).unwrap();

    let result = apply_action(&state, Action::Move(Direction::East)).unwrap();
    assert_eq!(result.state.phase(), GamePhase::Playing);

    let result = apply_action(&result.state, Action::Move(Direction::East)).unwrap();
    assert_eq!(result.state.phase(), GamePhase::Detected);
}

#[test]
fn test_light_cone_detection() {
    let mut cube = TimeCube::new(10, 10, 6);
    let player_start = Position::new(2, 2, 0);
    cube.spawn(Entity::player(player_start)).unwrap();

    let patrol = PatrolData::new(vec![SpatialPos::new(5, 2)], true);
    let vision = VisionData::omnidirectional(3);
    let enemy = Entity::enemy(Position::new(5, 2, 0), patrol, vision);
    cube.spawn(enemy).unwrap();
    cube.propagate_all().unwrap();

    let mut world_line = WorldLine::new(player_start);
    world_line.extend(Position::new(2, 2, 1)).unwrap();

    let config = DetectionConfig {
        model: DetectionModel::LightCone,
        delay_turns: 2,
        vision_radius: 5,
    };

    // distance 3 <= light_speed 3 * elapsed 1 at te=1, within radius 5
    let result = check_detection(&cube, &world_line, &config);
    assert!(result.is_some());
}

#[test]
fn test_simple_win_scenario() {
    let mut cube = TimeCube::new(5, 5, 5);
    cube.spawn(Entity::player(Position::new(1, 1, 0))).unwrap();
    cube.spawn_and_propagate(Entity::exit(Position::new(2, 1, 0))).unwrap();
    let state = GameState::from_cube(cube).unwrap();
    let result = apply_action(&state, Action::Move(Direction::East)).unwrap();
    assert_eq!(result.state.phase(), GamePhase::Won);
    match result.outcome {
        ActionOutcome::Won { at } => assert_eq!(at, Position::new(2, 1, 1)),
        _ => panic!("expected a win outcome"),
    }
}
