//! Simulation core of a turn-based stealth puzzle game in which time is a
//! spatial dimension: the player moves through a 3D space-time volume
//! (x, y, t) and enemies perceive the player only through delayed or
//! light-cone-limited causal information.

pub mod position;
pub mod components;
pub mod entity;
pub mod world_line;
pub mod time_slice;
pub mod time_cube;
pub mod light_cone;
pub mod propagation;
pub mod detection;
pub mod state;
pub mod validation;
pub mod actions;

pub use position::{Direction, Position, SpatialPos};
pub use components::{Component, EntityId, PatrolData, RiftData, VisionData};
pub use entity::{entity_priority, validate_components, Entity, EntityBuilder, EntityType};
pub use world_line::{WorldLine, WorldLineError};
pub use time_slice::TimeSlice;
pub use time_cube::{CubeError, TimeCube};
pub use light_cone::{bresenham_line, is_line_blocked, manhattan_distance};
pub use detection::{check_detection, DetectionConfig, DetectionModel, DetectionResult};
pub use propagation::{
    compute_propagated_entity, depropagate_entity, propagate_entity, propagate_from,
    propagate_from_with_options, would_collide, PropagationContext, PropagationOptions,
    PropagationResult, PropagationWarning,
};
pub use state::{GameConfig, GameError, GamePhase, GameState, GameStateBuilder};
pub use actions::{
    apply_action, preview_action, validate_action, Action, ActionError, ActionOutcome,
    ActionResult, MoveError, RiftTargetReason,
};
pub use validation::{
    compute_push_chain, find_reachable_positions, validate_directional_move, validate_move_target,
    validate_pull, validate_push, validate_rift, validate_wait, would_self_intersect,
};
