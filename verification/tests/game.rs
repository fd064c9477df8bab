use he_walks_unseen::{
    apply_action, compute_push_chain, preview_action, validate_action, validate_directional_move,
    validate_move_target, validate_pull, validate_push, validate_rift, validate_wait, Action,
    ActionError, ActionOutcome, Direction, Entity, GameError, GamePhase, GameState,
    GameStateBuilder, MoveError, Position, TimeCube,
};

fn basic_state() -> GameState {
    let mut cube = TimeCube::new(5, 5, 5);
    cube.spawn(Entity::player(Position::new(1, 1, 0))).unwrap();
    GameState::from_cube(cube).unwrap()
}

fn basic_cube_with_player() -> TimeCube {
    let mut cube = TimeCube::new(5, 5, 3);
    cube.spawn(Entity::player(Position::new(1, 1, 0))).unwrap();
    cube
}

fn state_with_player() -> GameState {
    let mut cube = TimeCube::new(5, 5, 3);
    cube.spawn(Entity::player(Position::new(1, 1, 0))).unwrap();
    GameState::from_cube(cube).unwrap()
}

#[test]
fn test_apply_move_east() {
    let state = basic_state();
    let result = apply_action(&state, Action::Move(Direction::East)).unwrap();
    assert_eq!(result.state.player_position(), Position::new(2, 1, 1));
}

#[test]
fn test_apply_wait() {
    let state = basic_state();
    let result = apply_action(&state, Action::Wait).unwrap();
    assert_eq!(result.state.player_position(), Position::new(1, 1, 1));
}

#[test]
fn test_apply_rift_no_rift() {
    let state = basic_state();
    let err = apply_action(&state, Action::UseRift).unwrap_err();
    assert!(matches!(err, ActionError::NoRiftHere));
}

#[test]
fn test_preview_action() {
    let state = basic_state();
    let preview = preview_action(&state, Action::Move(Direction::South)).unwrap();
    assert!(matches!(preview, ActionOutcome::Moved { .. }));
}

#[test]
fn test_validate_action() {
    let state = basic_state();
    assert!(validate_action(&state, Action::Move(Direction::East)).is_ok());
}

#[test]
fn test_apply_move_extends_world_line() {
    let state = basic_state();
    assert_eq!(state.world_line().len(), 1);
    let result = apply_action(&state, Action::Move(Direction::East)).unwrap();
    assert_eq!(result.state.world_line().len(), 2);
}

#[test]
fn test_apply_push_single_box() {
    let mut cube = TimeCube::new(5, 5, 5);
    cube.spawn(Entity::player(Position::new(1, 1, 0))).unwrap();
    cube.spawn(Entity::pushable_box(Position::new(2, 1, 0))).unwrap();
    let state = GameState::from_cube(cube).unwrap();
    let result = apply_action(&state, Action::Push(Direction::East)).unwrap();
    assert_eq!(result.state.player_position(), Position::new(2, 1, 1));
    assert!(result
        .state
        .cube()
        .entities_at(Position::new(3, 1, 1))
        .iter()
        .any(|e| e.entity_type() == he_walks_unseen::EntityType::Box));
}

#[test]
fn test_apply_push_blocked_by_wall() {
    let mut cube = TimeCube::new(5, 5, 5);
    cube.spawn(Entity::player(Position::new(1, 1, 0))).unwrap();
    cube.spawn(Entity::pushable_box(Position::new(2, 1, 0))).unwrap();
    // Wall is intentionally placed at t=1 (next slice) to block the push.
    cube.spawn(Entity::wall(Position::new(3, 1, 1))).unwrap();
    let state = GameState::from_cube(cube).unwrap();
    let err = apply_action(&state, Action::Push(Direction::East)).unwrap_err();
    assert!(matches!(err, ActionError::PushBlocked { .. }));
}

#[test]
fn test_apply_pull_success() {
    let mut cube = TimeCube::new(5, 5, 5);
    cube.spawn(Entity::player(Position::new(2, 1, 0))).unwrap();
    cube.spawn(Entity::pullable_box(Position::new(1, 1, 0))).unwrap();
    let state = GameState::from_cube(cube).unwrap();
    let result = apply_action(&state, Action::Pull(Direction::East)).unwrap();
    assert_eq!(result.state.player_position(), Position::new(3, 1, 1));
    assert!(result
        .state
        .cube()
        .entities_at(Position::new(2, 1, 1))
        .iter()
        .any(|e| e.entity_type() == he_walks_unseen::EntityType::Box));
}

#[test]
fn test_win_on_exit() {
    let mut cube = TimeCube::new(5, 5, 5);
    cube.spawn(Entity::player(Position::new(1, 1, 0))).unwrap();
    cube.spawn_and_propagate(Entity::exit(Position::new(2, 1, 0))).unwrap();
    let state = GameState::from_cube(cube).unwrap();
    let result = apply_action(&state, Action::Move(Direction::East)).unwrap();
    assert!(result.state.has_won());
    assert!(matches!(result.outcome, ActionOutcome::Won { .. }));
}

#[test]
fn test_restart_restores_initial_state() {
    let mut cube = TimeCube::new(5, 5, 5);
    cube.spawn(Entity::player(Position::new(1, 1, 0))).unwrap();
    cube.spawn_and_propagate(Entity::pushable_box(Position::new(2, 1, 0))).unwrap();
    let state = GameState::from_cube(cube).unwrap();
    let moved = apply_action(&state, Action::Push(Direction::East)).unwrap();
    let restarted = apply_action(&moved.state, Action::Restart).unwrap();
    assert_eq!(restarted.state.phase(), GamePhase::Playing);
    assert_eq!(restarted.state.turn(), 0);
    assert!(restarted.state.history().is_empty());
    assert_eq!(restarted.state.player_position(), Position::new(1, 1, 0));
    assert_eq!(restarted.state.world_line().len(), 1);
    assert!(restarted
        .state
        .cube()
        .entities_at(Position::new(2, 1, 0))
        .iter()
        .any(|e| e.entity_type() == he_walks_unseen::EntityType::Box));
    assert!(restarted.state.cube().entities_at(Position::new(3, 1, 1)).iter().all(
        |e| e.entity_type() != he_walks_unseen::EntityType::Box,
    ));
}

#[test]
fn test_game_state_new_finds_player() {
    let cube = basic_cube_with_player();
    let state = GameState::from_cube(cube).unwrap();
    assert_eq!(state.player_position(), Position::new(1, 1, 0));
}

#[test]
fn test_game_state_new_fails_no_player() {
    let cube = TimeCube::new(5, 5, 3);
    let err = GameState::from_cube(cube).unwrap_err();
    assert_eq!(err, GameError::NoPlayer);
}

#[test]
fn test_game_state_new_fails_multiple_players() {
    let mut cube = TimeCube::new(5, 5, 3);
    cube.spawn(Entity::player(Position::new(1, 1, 0))).unwrap();
    cube.spawn(Entity::player(Position::new(2, 2, 0))).unwrap();
    let err = GameState::from_cube(cube).unwrap_err();
    assert_eq!(err, GameError::MultiplePlayers);
}

#[test]
fn test_player_position_matches_world_line() {
    let cube = basic_cube_with_player();
    let state = GameState::from_cube(cube).unwrap();
    assert_eq!(state.player_position(), state.world_line().current().unwrap());
}

#[test]
fn test_current_time_matches_player_t() {
    let cube = basic_cube_with_player();
    let state = GameState::from_cube(cube).unwrap();
    assert_eq!(state.current_time(), 0);
}

#[test]
fn test_is_active_when_playing() {
    let cube = basic_cube_with_player();
    let state = GameState::from_cube(cube).unwrap();
    assert!(state.is_active());
}

#[test]
fn test_is_active_false_when_won() {
    let mut cube = TimeCube::new(5, 5, 3);
    let start = Position::new(1, 1, 0);
    cube.spawn(Entity::player(start)).unwrap();
    cube.spawn_and_propagate(Entity::exit(start)).unwrap();
    let state = GameState::from_cube(cube).unwrap();
    let result = apply_action(&state, Action::Wait).unwrap();
    assert!(!result.state.is_active());
    assert!(result.state.has_won());
}

#[test]
fn test_can_move_to_empty_space() {
    let cube = basic_cube_with_player();
    let state = GameState::from_cube(cube).unwrap();
    assert!(state.can_move_to(Position::new(2, 1, 1)));
}

#[test]
fn test_can_move_to_blocked_by_wall() {
    let mut cube = basic_cube_with_player();
    cube.spawn(Entity::wall(Position::new(2, 1, 1))).unwrap();
    let state = GameState::from_cube(cube).unwrap();
    assert!(!state.can_move_to(Position::new(2, 1, 1)));
}

#[test]
fn test_can_move_to_self_intersection() {
    let cube = basic_cube_with_player();
    let mut state = GameState::from_cube(cube).unwrap();
    state.world_line.extend(Position::new(2, 1, 1)).unwrap();
    assert!(!state.can_move_to(Position::new(2, 1, 1)));
}

#[test]
fn test_at_rift_detection() {
    let mut cube = basic_cube_with_player();
    cube.spawn(Entity::rift(Position::new(1, 1, 0), Position::new(2, 2, 0), false)).unwrap();
    let state = GameState::from_cube(cube).unwrap();
    assert!(state.at_rift());
}

#[test]
fn test_valid_actions_at_rift() {
    let mut cube = TimeCube::new(5, 5, 5);
    cube.spawn(Entity::player(Position::new(1, 1, 0))).unwrap();
    cube.spawn(Entity::rift(Position::new(1, 1, 0), Position::new(2, 2, 2), false)).unwrap();
    let state = GameState::from_cube(cube).unwrap();
    let actions = state.valid_actions();
    assert!(actions.contains(&Action::UseRift));
}

#[test]
fn test_at_exit_detection() {
    let mut cube = basic_cube_with_player();
    cube.spawn(Entity::exit(Position::new(1, 1, 0))).unwrap();
    let state = GameState::from_cube(cube).unwrap();
    assert!(state.at_exit());
}

#[test]
fn test_reachable_positions() {
    let cube = basic_cube_with_player();
    let state = GameState::from_cube(cube).unwrap();
    let positions = state.reachable_positions();
    assert!(positions.contains(&Position::new(1, 1, 1)));
}

#[test]
fn test_builder_pattern() {
    let cube = basic_cube_with_player();
    let state = GameStateBuilder::new()
        .with_cube(cube)
        .with_level_name("Test")
        .build()
        .unwrap();
    assert_eq!(state.config.level_name, "Test");
}

#[test]
fn test_validate_move_target_valid() {
    let state = state_with_player();
    assert!(validate_move_target(&state, Position::new(2, 1, 1)).is_ok());
}

#[test]
fn test_validate_move_target_out_of_bounds() {
    let state = state_with_player();
    assert!(validate_move_target(&state, Position::new(6, 1, 1)).is_err());
}

#[test]
fn test_validate_move_target_blocked() {
    let mut cube = TimeCube::new(5, 5, 3);
    cube.spawn(Entity::player(Position::new(1, 1, 0))).unwrap();
    cube.spawn(Entity::wall(Position::new(2, 1, 1))).unwrap();
    let state = GameState::from_cube(cube).unwrap();
    assert!(matches!(
        validate_move_target(&state, Position::new(2, 1, 1)),
        Err(MoveError::Blocked { .. })
    ));
}

#[test]
fn test_validate_directional_move() {
    let state = state_with_player();
    let target = validate_directional_move(&state, Direction::East).unwrap();
    assert_eq!(target, Position::new(2, 1, 1));
}

#[test]
fn test_validate_wait_valid() {
    let state = state_with_player();
    let target = validate_wait(&state).unwrap();
    assert_eq!(target, Position::new(1, 1, 1));
}

#[test]
fn test_validate_rift_no_rift() {
    let state = state_with_player();
    assert!(matches!(validate_rift(&state), Err(ActionError::NoRiftHere)));
}

#[test]
fn test_compute_push_chain_empty() {
    let state = state_with_player();
    let chain = compute_push_chain(state.cube(), state.player_position(), Direction::East, 3);
    assert!(chain.is_empty());
}

#[test]
fn test_validate_push_chain() {
    let mut cube = TimeCube::new(10, 5, 5);
    cube.spawn(Entity::player(Position::new(1, 1, 0))).unwrap();
    cube.spawn(Entity::pushable_box(Position::new(2, 1, 0))).unwrap();
    cube.spawn(Entity::pushable_box(Position::new(3, 1, 0))).unwrap();
    let state = GameState::from_cube(cube).unwrap();
    let chain = validate_push(&state, Direction::East).unwrap();
    assert_eq!(chain.len(), 2);
}

#[test]
fn test_validate_push_chain_limit() {
    let mut cube = TimeCube::new(10, 5, 5);
    cube.spawn(Entity::player(Position::new(1, 1, 0))).unwrap();
    for x in 2..6 {
        cube.spawn(Entity::pushable_box(Position::new(x, 1, 0))).unwrap();
    }
    let state = GameState::from_cube(cube).unwrap();
    let err = validate_push(&state, Direction::East).unwrap_err();
    assert!(matches!(err, ActionError::PushChainTooLong { .. }));
}

#[test]
fn test_validate_pull_not_pullable() {
    let mut cube = TimeCube::new(5, 5, 5);
    cube.spawn(Entity::player(Position::new(2, 1, 0))).unwrap();
    cube.spawn(Entity::pushable_box(Position::new(1, 1, 0))).unwrap();
    let state = GameState::from_cube(cube).unwrap();
    let err = validate_pull(&state, Direction::East).unwrap_err();
    assert!(matches!(err, ActionError::NotPullable { .. }));
}

#[test]
fn test_validate_pull_nothing_there() {
    let mut cube = TimeCube::new(5, 5, 5);
    cube.spawn(Entity::player(Position::new(2, 1, 0))).unwrap();
    let state = GameState::from_cube(cube).unwrap();
    let err = validate_pull(&state, Direction::East).unwrap_err();
    assert!(matches!(err, ActionError::NothingToPull { .. }));
}

#[test]
fn test_push_succeeds_at_exact_chain_limit() {
    let mut cube = TimeCube::new(10, 5, 5);
    cube.spawn(Entity::player(Position::new(1, 1, 0))).unwrap();
    for x in 2..5 {
        cube.spawn(Entity::pushable_box(Position::new(x, 1, 0))).unwrap();
    }
    let state = GameState::from_cube(cube).unwrap();
    let chain = validate_push(&state, Direction::East).unwrap();
    assert_eq!(chain.len(), 3);
    let err = {
        let mut cube = TimeCube::new(10, 5, 5);
        cube.spawn(Entity::player(Position::new(1, 1, 0))).unwrap();
        for x in 2..6 {
            cube.spawn(Entity::pushable_box(Position::new(x, 1, 0))).unwrap();
        }
        let state = GameState::from_cube(cube).unwrap();
        validate_push(&state, Direction::East).unwrap_err()
    };
    assert!(matches!(err, ActionError::PushChainTooLong { .. }));
    assert!(!matches!(err, ActionError::PushBlocked { .. }));
}

#[test]
fn test_restart_stays_legal_after_game_over() {
    let mut cube = TimeCube::new(5, 5, 5);
    cube.spawn(Entity::player(Position::new(1, 1, 0))).unwrap();
    cube.spawn_and_propagate(Entity::exit(Position::new(2, 1, 0))).unwrap();
    let state = GameState::from_cube(cube).unwrap();
    let won = apply_action(&state, Action::Move(Direction::East)).unwrap();
    assert_eq!(won.state.phase(), GamePhase::Won);
    let actions = won.state.valid_actions();
    assert_eq!(actions, vec![Action::Restart]);
    assert!(apply_action(&won.state, Action::Restart).is_ok());
    assert!(matches!(
        apply_action(&won.state, Action::Wait).unwrap_err(),
        ActionError::GameNotActive { .. }
    ));
}
