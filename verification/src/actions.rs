//! Actions and action execution: the state machine that turns a player
//! intent into a new, fully validated game state.

use vstd::prelude::*;

use crate::components::{Component, EntityId};
use crate::detection::{check_detection, spec_detected, spec_detection_pair};
use crate::entity::{Entity, EntityType};
use crate::position::{spec_delta, spec_is_valid_step, Direction, Position};
use crate::propagation::{propagate_from_with_options, PropagationOptions, PropagationResult};
use crate::state::{cube_abs, GamePhase, GameState};
use crate::time_cube::{CubeError, TimeCube};
use crate::validation::{
    spec_move_ok, spec_step_target, spec_wait_target, validate_directional_move, validate_pull,
    validate_push, validate_rift, validate_wait,
};

verus! {

/// A player action.
#[derive(Debug, Clone, Copy, PartialEq, Eq, Hash, Structural)]
pub enum Action {
    /// Move in a cardinal direction (also advances time by 1).
    Move(Direction),
    /// Wait in place (advances time by 1, same position).
    Wait,
    /// Use a rift at the current position (teleport to its target).
    UseRift,
    /// Push an adjacent pushable entity in a direction.
    Push(Direction),
    /// Pull an adjacent pullable entity.
    Pull(Direction),
    /// Restart the level (resets to the initial state).
    Restart,
}

/// Result of applying an action.
#[derive(Debug)]
pub struct ActionResult {
    /// The new game state after the action.
    pub state: GameState,
    /// What happened (for UI feedback).
    pub outcome: ActionOutcome,
    /// Entities that moved as a result of this action: (id, from, to).
    pub moved_entities: Vec<(EntityId, Position, Position)>,
    /// Propagation details (if propagation occurred).
    pub propagation: Option<PropagationResult>,
}

/// Describes what happened when an action was applied.
#[derive(Debug, PartialEq)]
pub enum ActionOutcome {
    /// Player moved normally.
    Moved {
        /// Previous position.
        from: Position,
        /// New position.
        to: Position,
    },
    /// Player waited in place.
    Waited {
        /// Position after waiting.
        at: Position,
    },
    /// Player used a rift.
    Rifted {
        /// Previous position.
        from: Position,
        /// Rift target position.
        to: Position,
    },
    /// Player pushed entities.
    Pushed {
        /// Player destination.
        player_to: Position,
        /// Pushed entities and their destinations.
        pushed: Vec<(EntityId, Position)>,
    },
    /// Player pulled an entity.
    Pulled {
        /// Player destination.
        player_to: Position,
        /// Pulled entity id.
        pulled_id: EntityId,
        /// Pulled entity destination.
        pulled_to: Position,
    },
    /// Level restarted.
    Restarted,
    /// Player reached the exit and won.
    Won {
        /// Exit position.
        at: Position,
    },
    /// Player was detected and lost.
    Detected {
        /// Enemy that detected the player.
        by: EntityId,
        /// Player position that was seen.
        seen_at: Position,
    },
}

/// Why a rift target was rejected.
#[derive(Debug, Clone, Copy, PartialEq, Eq, Structural)]
pub enum RiftTargetReason {
    /// The target lies outside the cube.
    OutOfBounds,
    /// The target was already visited.
    SelfIntersection,
}

/// Error when an action cannot be applied.
#[derive(Debug, Clone, Copy, PartialEq, Eq, Structural)]
pub enum ActionError {
    /// Game is not active.
    GameNotActive {
        /// Current game phase.
        phase: GamePhase,
    },
    /// Move validation failed.
    MoveBlocked(MoveError),
    /// No rift at the current position.
    NoRiftHere,
    /// Rift target invalid.
    InvalidRiftTarget {
        /// Target position.
        target: Position,
        /// Reason for invalidity.
        reason: RiftTargetReason,
    },
    /// Nothing to push.
    NothingToPush {
        /// Direction attempted.
        direction: Direction,
    },
    /// Push blocked.
    PushBlocked {
        /// Blocked target position.
        blocked_at: Position,
    },
    /// Push chain too long.
    PushChainTooLong {
        /// Chain length encountered.
        chain_length: usize,
        /// Maximum allowed.
        max: usize,
    },
    /// Nothing to pull.
    NothingToPull {
        /// Direction attempted.
        direction: Direction,
    },
    /// Entity not pullable.
    NotPullable {
        /// Entity id.
        entity_id: EntityId,
    },
    /// Internal invariant violation: a defect in the engine itself,
    /// returned as a value rather than crashing.
    Internal(CubeError),
}

/// Detailed move validation error.
#[derive(Debug, Clone, Copy, PartialEq, Eq, Structural)]
pub enum MoveError {
    /// Position out of bounds.
    OutOfBounds {
        /// X coordinate.
        x: i32,
        /// Y coordinate.
        y: i32,
        /// T coordinate.
        t: i32,
    },
    /// Position blocked.
    Blocked {
        /// X coordinate.
        x: i32,
        /// Y coordinate.
        y: i32,
        /// T coordinate.
        t: i32,
        /// Blocking entity id.
        entity_id: EntityId,
        /// Blocking entity classification.
        entity_type: EntityType,
    },
    /// Self-intersection.
    SelfIntersection {
        /// X coordinate.
        x: i32,
        /// Y coordinate.
        y: i32,
        /// T coordinate.
        t: i32,
    },
    /// Invalid direction.
    InvalidDirection,
    /// Time overflow.
    TimeOverflow {
        /// Attempted time.
        t: i32,
        /// Maximum allowed.
        max_t: i32,
    },
}

/// An element contained in a list stays contained when the list is only
/// extended at its end.
proof fn lemma_prefix_contains_action(pre: Seq<Action>, post: Seq<Action>, x: Action)
    requires
        pre.contains(x),
        post.len() >= pre.len(),
        forall|i: int| 0 <= i < pre.len() ==> post[i] == pre[i],
    ensures
        post.contains(x),
{
    let w = choose|w: int| 0 <= w < pre.len() && pre[w] == x;
    assert(post[w] == x);
}

/// The outcome reports a player movement (as opposed to a restart), so
/// detection and the exit check run after it.
pub open spec fn spec_player_outcome(o: ActionOutcome) -> bool {
    match o {
        ActionOutcome::Moved { .. } => true,
        ActionOutcome::Waited { .. } => true,
        ActionOutcome::Rifted { .. } => true,
        ActionOutcome::Pushed { .. } => true,
        ActionOutcome::Pulled { .. } => true,
        _ => false,
    }
}

/// The relation between a state and its successor after the player stepped
/// to `target`: the world line grew by the target, the player's instance
/// stands there, its old instance is gone, and everything else is as before.
pub open spec fn spec_after_player_move(s: GameState, s2: GameState, target: Position) -> bool {
    &&& s2.world_line@ == s.world_line@.push(target)
    &&& s2.player_id == s.player_id
    &&& s2.config == s.config
    &&& s2.phase == s.phase
    &&& s2.history@ == s.history@
    &&& s2.turn as int == s2.world_line@.len() - 1
    &&& s2.cube.width == s.cube.width
    &&& s2.cube.height == s.cube.height
    &&& s2.cube.time_depth == s.cube.time_depth
    &&& s2.cube.spec_entity_at_time(s.player_id, target.t as int) matches Some(e) && e.is_player()
        && e.position == target && e.id == s.player_id
    &&& (s.spec_player_position().t != target.t ==> s2.cube.spec_entity_at_time(
        s.player_id,
        s.spec_player_position().t as int,
    ) is None)
    &&& cube_abs(s2.initial_cube) == cube_abs(s.initial_cube)
    &&& s2.initial_cube.width == s.initial_cube.width
    &&& s2.initial_cube.height == s.initial_cube.height
    &&& s2.initial_cube.time_depth == s.initial_cube.time_depth
    &&& s2.initial_world_line@ == s.initial_world_line@
}

/// Extend the world line to `target` (a causal step or a rift jump), remove
/// the player's instance from its old slice, and write the new instance.
pub fn apply_player_move(state: &GameState, target: Position, via_rift: bool) -> (r: Result<
    GameState,
    ActionError,
>)
    requires
        state.wf(),
        state.cube.spec_in_bounds(target),
        !state.world_line@.contains(target),
        !via_rift ==> spec_is_valid_step(state.spec_player_position(), target),
    ensures
        r is Ok,
        r matches Ok(s2) ==> s2.wf() && spec_after_player_move(*state, s2, target),
{
    let mut s2 = state.clone();
    let from = state.player_position();
    if via_rift {
        match s2.world_line.extend_via_rift(target) {
            Ok(_) => {},
            Err(_) => {
                proof {
                    assert(false);
                }
                return Err(ActionError::Internal(CubeError::TimeSliceNotFound(0)));
            },
        }
    } else {
        match s2.world_line.extend(target) {
            Ok(_) => {},
            Err(_) => {
                proof {
                    assert(false);
                }
                return Err(ActionError::Internal(CubeError::TimeSliceNotFound(0)));
            },
        }
    }
    let player_id = state.player_id;
    let _ = s2.cube.despawn_at(player_id, from.t);
    let mut components: Vec<Component> = Vec::new();
    components.push(Component::Player);
    proof {
        let cs = components@.map_values(|c: Component| c@);
        assert(cs =~= seq![crate::components::AbsComponent::Player]);
        crate::entity::lemma_no_rifts(cs);
        crate::entity::lemma_no_patrols(cs);
        crate::entity::lemma_no_visions(cs);
    }
    let player_entity = Entity::with_id(player_id, target, components);
    match s2.cube.spawn_or_replace(player_entity) {
        Ok(_) => {},
        Err(_) => {
            proof {
                assert(false);
            }
            return Err(ActionError::Internal(CubeError::TimeSliceNotFound(0)));
        },
    }
    let len = s2.world_line.len();
    s2.turn = len - 1;
    proof {
        assert forall|i: int| 0 <= i < s2.world_line@.len() implies s2.cube.spec_in_bounds(
            #[trigger] s2.world_line@[i],
        ) by {
            if i < state.world_line@.len() {
                assert(s2.world_line@[i] == state.world_line@[i]);
                assert(state.cube.spec_in_bounds(state.world_line@[i]));
            }
        }
        assert forall|i: int| 0 <= i < s2.initial_world_line@.len() implies s2.cube.spec_in_bounds(
            #[trigger] s2.initial_world_line@[i],
        ) by {
            assert(state.cube.spec_in_bounds(state.initial_world_line@[i]));
        }
        crate::world_line::lemma_push_keeps_no_dups(state.world_line@, target);
    }
    Ok(s2)
}

/// Append the action to the history, then re-run detection and the exit
/// check: detection takes precedence over winning, and a positive result
/// overrides the nominal outcome and ends the game.
pub fn finalize_action(
    state: GameState,
    nominal: ActionOutcome,
    moved_entities: Vec<(EntityId, Position, Position)>,
    propagation: Option<PropagationResult>,
) -> (r: ActionResult)
    requires
        state.wf(),
    ensures
        r.state.wf(),
        r.state.cube == state.cube,
        r.state.world_line == state.world_line,
        r.state.player_id == state.player_id,
        r.state.turn == state.turn,
        r.state.history == state.history,
        r.state.config == state.config,
        r.state.initial_cube == state.initial_cube,
        r.state.initial_world_line == state.initial_world_line,
        r.moved_entities@ == moved_entities@,
        !spec_player_outcome(nominal) ==> r.state.phase == state.phase && r.outcome == nominal,
        spec_player_outcome(nominal) && spec_detected(
            state.cube,
            state.world_line@,
            state.config.detection,
        ) ==> r.state.phase == GamePhase::Detected && r.outcome is Detected && exists|ep: Position|
            spec_detection_pair(
                state.cube,
                state.world_line@,
                state.config.detection,
                r.outcome->Detected_by,
                ep,
                r.outcome->Detected_seen_at,
            ),
        spec_player_outcome(nominal) && !spec_detected(
            state.cube,
            state.world_line@,
            state.config.detection,
        ) && state.cube.spec_is_exit(state.spec_player_position()) ==> r.state.phase
            == GamePhase::Won && r.outcome == (ActionOutcome::Won {
            at: state.spec_player_position(),
        }),
        spec_player_outcome(nominal) && !spec_detected(
            state.cube,
            state.world_line@,
            state.config.detection,
        ) && !state.cube.spec_is_exit(state.spec_player_position()) ==> r.state.phase
            == state.phase && r.outcome == nominal,
{
    let ghost orig = state;
    let ghost gnominal = nominal;
    let mut state = state;
    let is_player_outcome = match &nominal {
        ActionOutcome::Moved { .. } => true,
        ActionOutcome::Waited { .. } => true,
        ActionOutcome::Rifted { .. } => true,
        ActionOutcome::Pushed { .. } => true,
        ActionOutcome::Pulled { .. } => true,
        _ => false,
    };
    let mut outcome = nominal;
    if is_player_outcome {
        let detection = check_detection(&state.cube, &state.world_line, &state.config.detection);
        if let Some(result) = detection {
            state.phase = GamePhase::Detected;
            outcome = ActionOutcome::Detected {
                by: result.enemy_id,
                seen_at: result.player_position,
            };
            proof {
                assert(spec_detection_pair(
                    orig.cube,
                    orig.world_line@,
                    orig.config.detection,
                    result.enemy_id,
                    result.enemy_position,
                    result.player_position,
                ));
                assert(outcome->Detected_by == result.enemy_id);
                assert(outcome->Detected_seen_at == result.player_position);
                assert(spec_detection_pair(
                    orig.cube,
                    orig.world_line@,
                    orig.config.detection,
                    outcome->Detected_by,
                    result.enemy_position,
                    outcome->Detected_seen_at,
                ));
            }
        } else if state.at_exit() {
            state.phase = GamePhase::Won;
            outcome = ActionOutcome::Won { at: state.player_position() };
        }
    }
    proof {
        if spec_player_outcome(gnominal) && spec_detected(
            orig.cube,
            orig.world_line@,
            orig.config.detection,
        ) {
            assert(state.phase == GamePhase::Detected);
            assert(outcome is Detected);
            assert(exists|ep: Position|
                spec_detection_pair(
                    orig.cube,
                    orig.world_line@,
                    orig.config.detection,
                    outcome->Detected_by,
                    ep,
                    outcome->Detected_seen_at,
                ));
        }
    }
    ActionResult { state, outcome, moved_entities, propagation }
}

/// Apply a directional move.
pub fn apply_move(state: &GameState, direction: Direction) -> (r: Result<
    ActionResult,
    ActionError,
>)
    requires
        state.wf(),
    ensures
        r is Ok <==> spec_move_ok(*state, spec_step_target(*state, direction)),
        r matches Err(e) ==> e matches ActionError::MoveBlocked(_),
        r matches Ok(res) ==> spec_applied_common(
            *state,
            res,
            Action::Move(direction),
            spec_step_target(*state, direction),
        ) && spec_phase_outcome(
            *state,
            res.state,
            res.outcome,
            ActionOutcome::Moved {
                from: state.spec_player_position(),
                to: spec_step_target(*state, direction),
            },
        ),
{
    let from = state.player_position();
    let to = match validate_directional_move(state, direction) {
        Ok(t) => t,
        Err(e) => {
            return Err(ActionError::MoveBlocked(e));
        },
    };
    proof {
        lemma_step_is_valid(*state, direction);
    }
    let s2 = match apply_player_move(state, to, false) {
        Ok(s) => s,
        Err(e) => {
            return Err(e);
        },
    };
    let mut s2 = s2;
    s2.history.push(Action::Move(direction));
    let outcome = ActionOutcome::Moved { from, to };
    let mut moved: Vec<(EntityId, Position, Position)> = Vec::new();
    moved.push((state.player_id, from, to));
    Ok(finalize_action(s2, outcome, moved, None))
}

/// The finalized phase and outcome follow the detection-first rule on the
/// new state.
pub open spec fn spec_phase_outcome(
    s: GameState,
    s2: GameState,
    outcome: ActionOutcome,
    nominal: ActionOutcome,
) -> bool {
    if spec_detected(s2.cube, s2.world_line@, s.config.detection) {
        &&& s2.phase == GamePhase::Detected
        &&& outcome is Detected
    } else if s2.cube.spec_is_exit(s2.world_line@.last()) {
        &&& s2.phase == GamePhase::Won
        &&& outcome == (ActionOutcome::Won { at: s2.world_line@.last() })
    } else {
        &&& s2.phase == s.phase
        &&& outcome == nominal
    }
}

/// The parts common to every successfully applied movement action: the
/// world line grew by the target, the history by the action, the turn
/// counter tracks the world line, the player's instance stands at the
/// target, and the frozen initial snapshot is untouched.
pub open spec fn spec_applied_common(
    s: GameState,
    res: ActionResult,
    action: Action,
    target: Position,
) -> bool {
    &&& res.state.wf()
    &&& res.state.world_line@ == s.world_line@.push(target)
    &&& res.state.history@ == s.history@.push(action)
    &&& res.state.turn as int == res.state.world_line@.len() - 1
    &&& res.state.player_id == s.player_id
    &&& res.state.config == s.config
    &&& res.state.cube.width == s.cube.width
    &&& res.state.cube.height == s.cube.height
    &&& res.state.cube.time_depth == s.cube.time_depth
    &&& res.state.cube.spec_entity_at_time(s.player_id, target.t as int) matches Some(e)
        && e.is_player() && e.position == target && e.id == s.player_id
    &&& cube_abs(res.state.initial_cube) == cube_abs(s.initial_cube)
    &&& res.state.initial_cube.width == s.initial_cube.width
    &&& res.state.initial_cube.height == s.initial_cube.height
    &&& res.state.initial_cube.time_depth == s.initial_cube.time_depth
    &&& res.state.initial_world_line@ == s.initial_world_line@
}

/// A one-cell step with one time unit is a valid causal step.
proof fn lemma_step_is_valid(s: GameState, d: Direction)
    requires
        s.world_line@.len() > 0,
        s.cube.spec_in_bounds(s.spec_player_position()),
        s.cube.spec_in_bounds(spec_step_target(s, d)),
    ensures
        spec_is_valid_step(s.spec_player_position(), spec_step_target(s, d)),
{
}

/// A wait (same cell, one time unit) is a valid causal step.
proof fn lemma_wait_is_valid(s: GameState)
    requires
        s.world_line@.len() > 0,
        s.cube.spec_in_bounds(s.spec_player_position()),
        s.cube.spec_in_bounds(spec_wait_target(s)),
    ensures
        spec_is_valid_step(s.spec_player_position(), spec_wait_target(s)),
{
}

/// Apply a wait.
pub fn apply_wait(state: &GameState) -> (r: Result<ActionResult, ActionError>)
    requires
        state.wf(),
    ensures
        r is Ok <==> spec_move_ok(*state, spec_wait_target(*state)),
        r matches Err(e) ==> e matches ActionError::MoveBlocked(_),
        r matches Ok(res) ==> spec_applied_common(
            *state,
            res,
            Action::Wait,
            spec_wait_target(*state),
        ) && spec_phase_outcome(
            *state,
            res.state,
            res.outcome,
            ActionOutcome::Waited { at: spec_wait_target(*state) },
        ),
{
    let from = state.player_position();
    let at = match validate_wait(state) {
        Ok(t) => t,
        Err(e) => {
            return Err(ActionError::MoveBlocked(e));
        },
    };
    proof {
        lemma_wait_is_valid(*state);
    }
    let s2 = match apply_player_move(state, at, false) {
        Ok(s) => s,
        Err(e) => {
            return Err(e);
        },
    };
    let mut s2 = s2;
    s2.history.push(Action::Wait);
    let outcome = ActionOutcome::Waited { at };
    let mut moved: Vec<(EntityId, Position, Position)> = Vec::new();
    moved.push((state.player_id, from, at));
    Ok(finalize_action(s2, outcome, moved, None))
}

/// Apply a rift jump.
pub fn apply_rift(state: &GameState) -> (r: Result<ActionResult, ActionError>)
    requires
        state.wf(),
    ensures
        r == Err::<ActionResult, ActionError>(ActionError::NoRiftHere)
            <==> !state.cube.spec_has_rift(state.spec_player_position()),
        r is Ok <==> crate::validation::spec_rift_ok(*state),
        r matches Err(e) ==> !(e is GameNotActive),
        r matches Err(e) ==> (e matches ActionError::InvalidRiftTarget { target, reason }
            ==> target == crate::validation::spec_rift_target_of(*state) && (match reason {
            RiftTargetReason::OutOfBounds => !state.cube.spec_in_bounds(target),
            RiftTargetReason::SelfIntersection => state.cube.spec_in_bounds(target)
                && state.world_line@.contains(target),
        })),
        r matches Ok(res) ==> spec_applied_common(
            *state,
            res,
            Action::UseRift,
            crate::validation::spec_rift_target_of(*state),
        ) && spec_phase_outcome(
            *state,
            res.state,
            res.outcome,
            ActionOutcome::Rifted {
                from: state.spec_player_position(),
                to: crate::validation::spec_rift_target_of(*state),
            },
        ),
{
    let from = state.player_position();
    let to = match validate_rift(state) {
        Ok(t) => t,
        Err(e) => {
            return Err(e);
        },
    };
    let s2 = match apply_player_move(state, to, true) {
        Ok(s) => s,
        Err(e) => {
            proof {
                assert(false);
            }
            return Err(e);
        },
    };
    let mut s2 = s2;
    s2.history.push(Action::UseRift);
    let outcome = ActionOutcome::Rifted { from, to };
    let mut moved: Vec<(EntityId, Position, Position)> = Vec::new();
    moved.push((state.player_id, from, to));
    proof {
        assert(s2.world_line@.subrange(0, state.world_line@.len() as int)
            =~= state.world_line@);
    }
    Ok(finalize_action(s2, outcome, moved, None))
}

/// Write each pushed entity's instance at its destination in the target
/// slice, reading the originals from the pre-action cube.
#[verifier::rlimit(100)]
fn place_pushed(
    cube: &mut TimeCube,
    src: &TimeCube,
    moves: &Vec<(EntityId, Position, Position)>,
    current_t: i32,
    target_t: i32,
) -> (r: Result<Vec<EntityId>, ActionError>)
    requires
        old(cube).wf(),
        crate::time_cube::spec_cube_entities_valid(*old(cube)),
        src.wf(),
        crate::time_cube::spec_cube_entities_valid(*src),
        0 <= target_t,
        (target_t as int) < old(cube).slices@.len(),
        forall|k: int|
            0 <= k < moves@.len() ==> {
                let mv = #[trigger] moves@[k];
                src.spec_has_entity_at(mv.0, current_t as int) && old(cube).spec_in_bounds(mv.2)
                    && mv.2.t == target_t
            },
    ensures
        r is Ok,
        final(cube).wf(),
        crate::time_cube::spec_cube_entities_valid(*final(cube)),
        final(cube).width == old(cube).width,
        final(cube).height == old(cube).height,
        final(cube).time_depth == old(cube).time_depth,
        final(cube).slices@.len() == old(cube).slices@.len(),
        r matches Ok(ids) ==> ids@.len() == moves@.len() && forall|k: int|
            0 <= k < moves@.len() ==> (#[trigger] ids@[k]) == moves@[k].0,
        forall|k: int|
            0 <= k < moves@.len() ==> (final(cube).spec_entity_at_time(
                (#[trigger] moves@[k]).0,
                target_t as int,
            ) matches Some(e) && e.id == moves@[k].0 && exists|k3: int|
                0 <= k3 < moves@.len() && moves@[k3].0 == moves@[k].0 && e.position == (
                #[trigger] moves@[k3]).2),
        forall|u: int|
            0 <= u < old(cube).slices@.len() && u != target_t as int ==> final(cube).slices@[u]
                == old(cube).slices@[u],
        forall|id: EntityId|
            (forall|k: int| 0 <= k < moves@.len() ==> (#[trigger] moves@[k]).0 != id)
                ==> #[trigger] final(cube).slices@[target_t as int].spec_entity(id) == old(
                cube,
            ).slices@[target_t as int].spec_entity(id),
{
    let mut pushed_ids: Vec<EntityId> = Vec::new();
    let n = moves.len();
    for k in 0..n
        invariant
            cube.wf(),
            crate::time_cube::spec_cube_entities_valid(*cube),
            src.wf(),
            crate::time_cube::spec_cube_entities_valid(*src),
            n == moves@.len(),
            cube.width == old(cube).width,
            cube.height == old(cube).height,
            cube.time_depth == old(cube).time_depth,
            cube.slices@.len() == old(cube).slices@.len(),
            forall|k2: int|
                0 <= k2 < n ==> {
                    let mv = #[trigger] moves@[k2];
                    src.spec_has_entity_at(mv.0, current_t as int) && old(cube).spec_in_bounds(
                        mv.2,
                    ) && mv.2.t == target_t
                },
            pushed_ids@.len() == k,
            forall|k2: int| 0 <= k2 < k ==> (#[trigger] pushed_ids@[k2]) == moves@[k2].0,
            forall|k2: int|
                0 <= k2 < k ==> (cube.spec_entity_at_time(
                    (#[trigger] moves@[k2]).0,
                    target_t as int,
                ) matches Some(e) && e.id == moves@[k2].0 && exists|k3: int|
                    0 <= k3 < k && moves@[k3].0 == moves@[k2].0 && e.position == (
                    #[trigger] moves@[k3]).2),
            0 <= target_t && (target_t as int) < cube.slices@.len(),
            forall|u: int|
                0 <= u < old(cube).slices@.len() && u != target_t as int ==> cube.slices@[u]
                    == old(cube).slices@[u],
            forall|id: EntityId|
                (forall|k2: int| 0 <= k2 < k ==> (#[trigger] moves@[k2]).0 != id)
                    ==> #[trigger] cube.slices@[target_t as int].spec_entity(id) == old(
                    cube,
                ).slices@[target_t as int].spec_entity(id),
    {
        let (id, _mv_from, mv_to) = moves[k];
        let original = match src.entity_at_time(id, current_t) {
            Some(e) => e,
            None => {
                proof {
                    assert(false);
                }
                return Err(ActionError::Internal(CubeError::EntityNotFound(id)));
            },
        };
        let moved_entity = original.at_position(mv_to);
        proof {
            assert(moved_entity@.valid()) by {
                let es = src.slices@[current_t as int].abs_entities();
                let w = crate::time_slice::spec_index_of_id(es, id);
                assert(es[w].valid());
            }
        }
        let ghost pre_cube = *cube;
        let ghost ment = moved_entity@;
        match cube.spawn_or_replace(moved_entity) {
            Ok(_) => {},
            Err(_) => {
                proof {
                    assert(false);
                }
                return Err(ActionError::Internal(CubeError::EntityNotFound(id)));
            },
        }
        pushed_ids.push(id);
        proof {
            assert(ment.position == mv_to);
            assert(cube.spec_entity_at_time(id, target_t as int) == Some(ment));
            assert forall|k2: int| 0 <= k2 < k + 1 implies (cube.spec_entity_at_time(
                (#[trigger] moves@[k2]).0,
                target_t as int,
            ) matches Some(e) && e.id == moves@[k2].0 && exists|k3: int|
                0 <= k3 < k + 1 && moves@[k3].0 == moves@[k2].0 && e.position == (
                #[trigger] moves@[k3]).2) by {
                if moves@[k2].0 == id {
                    assert(moves@[k as int].0 == moves@[k2].0 && ment.position == moves@[
                        k as int].2);
                } else {
                    assert(cube.slices@[target_t as int].spec_entity(moves@[k2].0)
                        == pre_cube.slices@[target_t as int].spec_entity(moves@[k2].0));
                    assert(pre_cube.spec_entity_at_time(moves@[k2].0, target_t as int)
                        matches Some(e0) && e0.id == moves@[k2].0 && exists|k3: int|
                        0 <= k3 < k && moves@[k3].0 == moves@[k2].0 && e0.position == (
                        #[trigger] moves@[k3]).2);
                }
            }
        }
    }
    Ok(pushed_ids)
}

/// Re-run propagation scoped to the moved entities from their new time
/// forward. Propagation is best-effort: it never fails the surrounding
/// action, and it writes only the slices after `from_t`.
fn repropagate_moved(cube: &mut TimeCube, from_t: i32, ids: Vec<EntityId>) -> (r: Option<
    PropagationResult,
>)
    requires
        old(cube).wf(),
        crate::time_cube::spec_cube_entities_valid(*old(cube)),
        0 <= from_t < old(cube).slices@.len(),
    ensures
        final(cube).wf(),
        crate::time_cube::spec_cube_entities_valid(*final(cube)),
        final(cube).width == old(cube).width,
        final(cube).height == old(cube).height,
        final(cube).time_depth == old(cube).time_depth,
        final(cube).slices@.len() == old(cube).slices@.len(),
        final(cube).slices@[from_t as int] == old(cube).slices@[from_t as int],
{
    match propagate_from_with_options(
        cube,
        from_t,
        PropagationOptions { only_entities: Some(ids), stop_at: None, skip_collisions: false },
    ) {
        Ok(p) => Some(p),
        Err(_) => None,
    }
}

/// An identifier standing for a pushable or pullable entity in the
/// player's current slice cannot be the player's: the player's instance is
/// a pure player entity, and the player tag excludes every other component.
proof fn lemma_movable_id_not_player(s: GameState, e: crate::entity::AbsEntity)
    requires
        s.wf(),
        s.cube.slices@[s.spec_player_position().t as int].abs_entities().contains(e),
        e.is_pushable() || e.is_pullable(),
    ensures
        e.id != s.player_id,
{
    let t = s.spec_player_position().t as int;
    let es = s.cube.slices@[t].abs_entities();
    if e.id == s.player_id {
        let p = s.cube.spec_entity_at_time(s.player_id, t)->Some_0;
        let i = choose|i: int| 0 <= i < es.len() && es[i] == e;
        assert(crate::time_cube::slice_consistent(
            s.cube.slices@[t],
            t,
            s.cube.width,
            s.cube.height,
        ));
        let j = crate::time_slice::spec_index_of_id(es, s.player_id);
        assert(es[j].id == s.player_id);
        assert(j == i);
        assert(e == p);
        assert(e.valid());
        crate::entity::lemma_player_not_movable(e);
    }
}

/// Transfer the per-identifier placements from the pushed-move list to the
/// full moved-entity list (which carries the player entry first).
proof fn lemma_push_placements(
    moves: Seq<(EntityId, Position, Position)>,
    moved: Seq<(EntityId, Position, Position)>,
    cube: TimeCube,
    target_t: i32,
)
    requires
        moved.len() == moves.len() + 1,
        forall|k: int| 1 <= k < moved.len() ==> #[trigger] moved[k] == moves[k - 1],
        forall|k: int| 0 <= k < moves.len() ==> (#[trigger] moves[k]).2.t == target_t,
        forall|k: int|
            0 <= k < moves.len() ==> (cube.spec_entity_at_time(
                (#[trigger] moves[k]).0,
                target_t as int,
            ) matches Some(e) && e.id == moves[k].0 && exists|k3: int|
                0 <= k3 < moves.len() && moves[k3].0 == moves[k].0 && e.position == (
                #[trigger] moves[k3]).2),
    ensures
        forall|k2: int|
            1 <= k2 < moved.len() ==> (cube.spec_entity_at_time(
                (#[trigger] moved[k2]).0,
                moved[k2].2.t as int,
            ) matches Some(e) && e.id == moved[k2].0 && exists|k3: int|
                1 <= k3 < moved.len() && moved[k3].0 == moved[k2].0 && e.position == (
                #[trigger] moved[k3]).2),
{
    assert forall|k2: int| 1 <= k2 < moved.len() implies (cube.spec_entity_at_time(
        (#[trigger] moved[k2]).0,
        moved[k2].2.t as int,
    ) matches Some(e) && e.id == moved[k2].0 && exists|k3: int|
        1 <= k3 < moved.len() && moved[k3].0 == moved[k2].0 && e.position == (
        #[trigger] moved[k3]).2) by {
        assert(moved[k2] == moves[k2 - 1]);
        assert(moves[k2 - 1].2.t == target_t);
        assert(cube.spec_entity_at_time(moves[k2 - 1].0, target_t as int) matches Some(e0)
            && e0.id == moves[k2 - 1].0 && exists|k4: int|
            0 <= k4 < moves.len() && moves[k4].0 == moves[k2 - 1].0 && e0.position == (
            #[trigger] moves[k4]).2);
        let e0 = cube.spec_entity_at_time(moves[k2 - 1].0, target_t as int)->Some_0;
        let k4 = choose|k4: int|
            0 <= k4 < moves.len() && moves[k4].0 == moves[k2 - 1].0 && e0.position == (
            #[trigger] moves[k4]).2;
        assert(moved[k4 + 1] == moves[k4 + 1 - 1]);
    }
}

/// Apply a push: move the player, relocate the chain one cell onward in the
/// next slice, and re-propagate the pushed entities from there forward.
#[verifier::rlimit(100)]
pub fn apply_push(state: &GameState, direction: Direction) -> (r: Result<
    ActionResult,
    ActionError,
>)
    requires
        state.wf(),
    ensures
        r is Ok <==> crate::validation::spec_push_ok(*state, direction),
        r == Err::<ActionResult, ActionError>(ActionError::NothingToPush { direction })
            <==> !crate::validation::spec_has_pushable_at(
            state.cube,
            crate::validation::spec_chain_cell(state.spec_player_position(), direction, 0),
        ),
        r matches Err(e) ==> e is NothingToPush || e is PushChainTooLong || e is MoveBlocked
            || e is PushBlocked,
        r matches Err(e) ==> (e matches ActionError::PushChainTooLong { chain_length, max }
            ==> max == state.config.max_push_chain && chain_length > max),
        r matches Err(e) ==> (e matches ActionError::MoveBlocked(me) ==> exists|len: int|
            1 <= len <= state.config.max_push_chain && #[trigger] crate::validation::spec_chain_filled(
                *state,
                direction,
                len,
            ) && !crate::validation::spec_move_ok_ignoring(
                *state,
                spec_step_target(*state, direction),
                crate::validation::spec_push_ids(*state, direction, len).push(state.player_id),
            )),
        r matches Err(e) ==> (e matches ActionError::PushBlocked { blocked_at } ==> exists|
            len: int,
            k: int,
        |
            #![trigger crate::validation::spec_chain_filled(*state, direction, len), crate::validation::spec_push_dest(*state, direction, k)]
            1 <= len <= state.config.max_push_chain && crate::validation::spec_chain_filled(
                *state,
                direction,
                len,
            ) && 0 <= k < len && blocked_at == crate::validation::spec_push_dest(
                *state,
                direction,
                k,
            ) && !crate::validation::spec_entity_target_ok(
                state.cube,
                blocked_at,
                crate::validation::spec_push_ids(*state, direction, len).push(state.player_id),
            )),
        r matches Ok(res) ==> {
            let target = spec_step_target(*state, direction);
            &&& spec_applied_common(*state, res, Action::Push(direction), target)
            &&& res.moved_entities@.len() >= 2
            &&& forall|k: int|
                1 <= k < res.moved_entities@.len() ==> {
                    let mv = #[trigger] res.moved_entities@[k];
                    res.state.cube.spec_entity_at_time(mv.0, mv.2.t as int) matches Some(e)
                        && e.id == mv.0 && exists|k3: int|
                        1 <= k3 < res.moved_entities@.len() && res.moved_entities@[k3].0 == mv.0
                            && e.position == (#[trigger] res.moved_entities@[k3]).2
                }
            &&& spec_phase_outcome(*state, res.state, res.outcome, res.outcome)
            &&& (!spec_detected(res.state.cube, res.state.world_line@, state.config.detection)
                && !res.state.cube.spec_is_exit(res.state.world_line@.last())
                ==> (res.outcome matches ActionOutcome::Pushed { player_to, pushed } && player_to
                == target && exists|len: int|
                1 <= len <= state.config.max_push_chain
                    && #[trigger] crate::validation::spec_chain_filled(*state, direction, len)
                    && pushed@ == crate::validation::spec_push_pairs(*state, direction, len)))
        },
{
    let current = state.player_position();
    let moves = match validate_push(state, direction) {
        Ok(m) => m,
        Err(e) => {
            return Err(e);
        },
    };
    let player_to = current.step(direction);
    proof {
        lemma_step_is_valid_ignoring(*state, direction);
    }
    let s2 = match apply_player_move(state, player_to, false) {
        Ok(s) => s,
        Err(e) => {
            return Err(e);
        },
    };
    let mut s2 = s2;
    let mut moved_entities: Vec<(EntityId, Position, Position)> = Vec::new();
    moved_entities.push((state.player_id, current, player_to));
    let pushed_ids = match place_pushed(&mut s2.cube, &state.cube, &moves, current.t, player_to.t) {
        Ok(ids) => ids,
        Err(e) => {
            proof {
                assert(false);
            }
            return Err(e);
        },
    };
    let n = moves.len();
    for k in 0..n
        invariant
            n == moves@.len(),
            moved_entities@.len() == k + 1,
            forall|k2: int|
                1 <= k2 < moved_entities@.len() ==> (#[trigger] moved_entities@[k2]) == moves@[k2
                    - 1],
            moved_entities@[0] == ((state.player_id, current, player_to)),
    {
        let (id, mv_from, mv_to) = moves[k];
        moved_entities.push((id, mv_from, mv_to));
        proof {
            assert(moved_entities@[moved_entities@.len() - 1] == moves@[k as int]);
        }
    }
    let propagation = repropagate_moved(&mut s2.cube, player_to.t, pushed_ids);
    proof {
        // the write slice lies outside the propagation range, so the
        // placements stand after re-propagation
        lemma_push_placements(moves@, moved_entities@, s2.cube, player_to.t);
    }
    s2.history.push(Action::Push(direction));
    let mut pushed_list: Vec<(EntityId, Position)> = Vec::new();
    let n2 = moves.len();
    for k in 0..n2
        invariant
            n2 == moves@.len(),
            pushed_list@.len() == k,
            forall|k2: int|
                0 <= k2 < k ==> (#[trigger] pushed_list@[k2]) == ((moves@[k2].0, moves@[k2].2)),
    {
        pushed_list.push((moves[k].0, moves[k].2));
    }
    proof {
        assert(pushed_list@ =~= crate::validation::spec_push_pairs(
            *state,
            direction,
            moves@.len() as int,
        ));
    }
    let outcome = ActionOutcome::Pushed { player_to, pushed: pushed_list };
    Ok(finalize_action(s2, outcome, moved_entities, propagation))
}

/// A one-cell step validated with ignores is still a valid causal step.
proof fn lemma_step_is_valid_ignoring(s: GameState, d: Direction)
    requires
        s.world_line@.len() > 0,
        s.cube.spec_in_bounds(s.spec_player_position()),
        s.cube.spec_in_bounds(spec_step_target(s, d)),
    ensures
        spec_is_valid_step(s.spec_player_position(), spec_step_target(s, d)),
{
}

/// Apply a pull: move the player forward and draw the entity behind into
/// the player's old cell, one time step later, then re-propagate it.
pub fn apply_pull(state: &GameState, direction: Direction) -> (r: Result<
    ActionResult,
    ActionError,
>)
    requires
        state.wf(),
    ensures
        r is Ok <==> crate::validation::spec_pull_ok(*state, direction),
        r matches Err(e) ==> e is NothingToPull || e is NotPullable || e is MoveBlocked
            || e is PushBlocked,
        r == Err::<ActionResult, ActionError>(ActionError::NothingToPull { direction })
            <==> !(state.cube.spec_in_bounds(crate::validation::spec_pull_cell(*state, direction))
            && crate::validation::spec_pull_occupants(*state, direction).len() > 0),
        r matches Err(e) ==> (e matches ActionError::NotPullable { entity_id } ==> entity_id
            == crate::validation::spec_pull_occupants(*state, direction)[0].id
            && !crate::validation::spec_pull_occupants(*state, direction)[0].is_pullable()),
        r matches Ok(res) ==> {
            let target = spec_step_target(*state, direction);
            &&& spec_applied_common(*state, res, Action::Pull(direction), target)
            &&& res.moved_entities@.len() == 2
            &&& {
                let mv = res.moved_entities@[1];
                res.state.cube.spec_entity_at_time(mv.0, mv.2.t as int) matches Some(e)
                    && e.position == mv.2 && e.id == mv.0 && mv.0
                    == crate::validation::spec_pull_occupants(*state, direction)[0].id && mv.2
                    == crate::validation::spec_pull_dest(*state)
            }
            &&& spec_phase_outcome(*state, res.state, res.outcome, res.outcome)
            &&& (!spec_detected(res.state.cube, res.state.world_line@, state.config.detection)
                && !res.state.cube.spec_is_exit(res.state.world_line@.last()) ==> res.outcome
                == (ActionOutcome::Pulled {
                player_to: target,
                pulled_id: crate::validation::spec_pull_occupants(*state, direction)[0].id,
                pulled_to: crate::validation::spec_pull_dest(*state),
            }))
        },
{
    let current = state.player_position();
    let (pulled_id, pull_from, box_to) = match validate_pull(state, direction) {
        Ok(p) => p,
        Err(e) => {
            return Err(e);
        },
    };
    let player_to = current.step(direction);
    proof {
        lemma_step_is_valid_ignoring(*state, direction);
    }
    let s2 = match apply_player_move(state, player_to, false) {
        Ok(s) => s,
        Err(e) => {
            proof {
                assert(false);
            }
            return Err(e);
        },
    };
    let mut s2 = s2;
    proof {
        crate::time_slice::lemma_entities_at_member(
            state.cube.slices@[current.t as int].abs_entities(),
            crate::position::SpatialPos { x: pull_from.x, y: pull_from.y },
            0,
        );
        let occ = crate::validation::spec_pull_occupants(*state, direction)[0];
        let i = choose|i: int|
            0 <= i < state.cube.slices@[current.t as int].abs_entities().len()
                && state.cube.slices@[current.t as int].abs_entities()[i] == occ
                && crate::time_slice::at_cell(
                state.cube.slices@[current.t as int].abs_entities()[i],
                crate::position::SpatialPos { x: pull_from.x, y: pull_from.y },
            );
        assert(crate::time_slice::spec_has_id(
            state.cube.slices@[current.t as int].abs_entities(),
            pulled_id,
        ));
        assert(state.cube.spec_has_entity_at(pulled_id, current.t as int));
    }
    let original = match state.cube.entity_at_time(pulled_id, current.t) {
        Some(e) => e,
        None => {
            proof {
                assert(false);
            }
            return Err(ActionError::Internal(CubeError::EntityNotFound(pulled_id)));
        },
    };
    let moved_entity = original.at_position(box_to);
    proof {
        assert(moved_entity@.valid()) by {
            let es = state.cube.slices@[current.t as int].abs_entities();
            let w = crate::time_slice::spec_index_of_id(es, pulled_id);
            assert(es[w].valid());
        }
    }
    match s2.cube.spawn_or_replace(moved_entity) {
        Ok(_) => {},
        Err(_) => {
            proof {
                assert(false);
            }
            return Err(ActionError::Internal(CubeError::EntityNotFound(pulled_id)));
        },
    }
    let mut pushed_ids: Vec<EntityId> = Vec::new();
    pushed_ids.push(pulled_id);
    let propagation = repropagate_moved(&mut s2.cube, player_to.t, pushed_ids);
    proof {
        assert forall|i: int| 0 <= i < s2.world_line@.len() implies s2.cube.spec_in_bounds(
            #[trigger] s2.world_line@[i],
        ) by {}
        // the pulled entity is pullable, so it cannot be the player's instance
        crate::time_slice::lemma_entities_at_member(
            state.cube.slices@[current.t as int].abs_entities(),
            crate::position::SpatialPos { x: pull_from.x, y: pull_from.y },
            0,
        );
        let occ = crate::validation::spec_pull_occupants(*state, direction)[0];
        assert(state.cube.slices@[current.t as int].abs_entities().contains(occ));
        lemma_movable_id_not_player(*state, occ);
        assert(pulled_id != state.player_id);
    }
    s2.history.push(Action::Pull(direction));
    let mut moved_entities: Vec<(EntityId, Position, Position)> = Vec::new();
    moved_entities.push((state.player_id, current, player_to));
    moved_entities.push((pulled_id, pull_from, box_to));
    let outcome = ActionOutcome::Pulled { player_to, pulled_id, pulled_to: box_to };
    Ok(finalize_action(s2, outcome, moved_entities, propagation))
}

/// Apply a restart: restore the frozen initial snapshot exactly, with phase
/// Playing, turn 0 and an empty history.
pub fn apply_restart(state: &GameState) -> (r: Result<ActionResult, ActionError>)
    requires
        state.wf(),
    ensures
        r matches Ok(res) && {
            &&& res.state.wf()
            &&& cube_abs(res.state.cube) == cube_abs(state.initial_cube)
            &&& res.state.world_line@ == state.initial_world_line@
            &&& res.state.phase == GamePhase::Playing
            &&& res.state.turn == 0
            &&& res.state.history@.len() == 0
            &&& res.outcome == ActionOutcome::Restarted
            &&& res.state.player_id == state.player_id
            &&& res.state.config == state.config
            &&& cube_abs(res.state.initial_cube) == cube_abs(state.initial_cube)
            &&& res.state.initial_world_line@ == state.initial_world_line@
        },
{
    let new_state = state.reset_to_initial();
    Ok(
        ActionResult {
            state: new_state,
            outcome: ActionOutcome::Restarted,
            moved_entities: Vec::new(),
            propagation: None,
        },
    )
}

/// Apply an action to a game state, producing a new state. Non-restart
/// actions are accepted only while the game is active.
pub fn apply_action(state: &GameState, action: Action) -> (r: Result<ActionResult, ActionError>)
    requires
        state.wf(),
    ensures
        r == Err::<ActionResult, ActionError>(ActionError::GameNotActive { phase: state.phase })
            <==> (state.phase != GamePhase::Playing && action != Action::Restart),
        r matches Ok(res) ==> res.state.wf(),
        state.phase == GamePhase::Playing ==> {
            &&& (action matches Action::Move(d) ==> (r is Ok <==> spec_move_ok(
                *state,
                spec_step_target(*state, d),
            )) && (r matches Ok(res) ==> spec_applied_common(
                *state,
                res,
                Action::Move(d),
                spec_step_target(*state, d),
            ) && spec_phase_outcome(
                *state,
                res.state,
                res.outcome,
                ActionOutcome::Moved {
                    from: state.spec_player_position(),
                    to: spec_step_target(*state, d),
                },
            )))
            &&& (action == Action::Wait ==> (r is Ok <==> spec_move_ok(
                *state,
                spec_wait_target(*state),
            )) && (r matches Ok(res) ==> spec_applied_common(
                *state,
                res,
                Action::Wait,
                spec_wait_target(*state),
            ) && spec_phase_outcome(
                *state,
                res.state,
                res.outcome,
                ActionOutcome::Waited { at: spec_wait_target(*state) },
            )))
            &&& (action == Action::UseRift ==> (r is Ok
                <==> crate::validation::spec_rift_ok(*state)) && (r == Err::<
                ActionResult,
                ActionError,
            >(ActionError::NoRiftHere) <==> !state.cube.spec_has_rift(
                state.spec_player_position(),
            )) && (r matches Ok(res) ==> spec_applied_common(
                *state,
                res,
                Action::UseRift,
                crate::validation::spec_rift_target_of(*state),
            ) && spec_phase_outcome(
                *state,
                res.state,
                res.outcome,
                ActionOutcome::Rifted {
                    from: state.spec_player_position(),
                    to: crate::validation::spec_rift_target_of(*state),
                },
            )))
            &&& (action matches Action::Push(d) ==> (r is Ok
                <==> crate::validation::spec_push_ok(*state, d)) && (r == Err::<
                ActionResult,
                ActionError,
            >(ActionError::NothingToPush { direction: d })
                <==> !crate::validation::spec_has_pushable_at(
                state.cube,
                crate::validation::spec_chain_cell(state.spec_player_position(), d, 0),
            )) && (r matches Err(e) ==> (e matches ActionError::PushChainTooLong {
                chain_length,
                max,
            } ==> max == state.config.max_push_chain && chain_length > max)) && (r matches Ok(res)
                ==> spec_applied_common(*state, res, Action::Push(d), spec_step_target(*state, d))
                && spec_phase_outcome(*state, res.state, res.outcome, res.outcome) && (
            !spec_detected(res.state.cube, res.state.world_line@, state.config.detection)
                && !res.state.cube.spec_is_exit(res.state.world_line@.last()) ==> (
            res.outcome matches ActionOutcome::Pushed { player_to, pushed } && player_to
                == spec_step_target(*state, d) && exists|len: int|
                1 <= len <= state.config.max_push_chain
                    && #[trigger] crate::validation::spec_chain_filled(*state, d, len) && pushed@
                    == crate::validation::spec_push_pairs(*state, d, len)))))
            &&& (action matches Action::Pull(d) ==> (r is Ok
                <==> crate::validation::spec_pull_ok(*state, d)) && (r matches Ok(res)
                ==> spec_applied_common(*state, res, Action::Pull(d), spec_step_target(*state, d))
                && spec_phase_outcome(*state, res.state, res.outcome, res.outcome) && (
            !spec_detected(res.state.cube, res.state.world_line@, state.config.detection)
                && !res.state.cube.spec_is_exit(res.state.world_line@.last()) ==> res.outcome
                == (ActionOutcome::Pulled {
                player_to: spec_step_target(*state, d),
                pulled_id: crate::validation::spec_pull_occupants(*state, d)[0].id,
                pulled_to: crate::validation::spec_pull_dest(*state),
            }))))
        },
        action == Action::Restart ==> (r matches Ok(res) && cube_abs(res.state.cube) == cube_abs(
            state.initial_cube,
        ) && res.state.world_line@ == state.initial_world_line@ && res.state.phase
            == GamePhase::Playing && res.state.turn == 0 && res.state.history@.len() == 0
            && res.outcome == ActionOutcome::Restarted && res.state.player_id == state.player_id
            && res.state.config == state.config && cube_abs(res.state.initial_cube) == cube_abs(
            state.initial_cube,
        ) && res.state.initial_world_line@ == state.initial_world_line@),
{
    if !state.is_active() && !matches!(action, Action::Restart) {
        return Err(ActionError::GameNotActive { phase: state.phase });
    }
    match action {
        Action::Move(direction) => apply_move(state, direction),
        Action::Wait => apply_wait(state),
        Action::UseRift => apply_rift(state),
        Action::Push(direction) => apply_push(state, direction),
        Action::Pull(direction) => apply_pull(state, direction),
        Action::Restart => apply_restart(state),
    }
}

/// Preview an action without applying it.
pub fn preview_action(state: &GameState, action: Action) -> (r: Result<
    ActionOutcome,
    ActionError,
>)
    requires
        state.wf(),
    ensures
        action matches Action::Move(d) ==> (r is Ok <==> spec_move_ok(
            *state,
            spec_step_target(*state, d),
        )) && (r matches Ok(o) ==> o == (ActionOutcome::Moved {
            from: state.spec_player_position(),
            to: spec_step_target(*state, d),
        })),
        action == Action::Wait ==> (r is Ok <==> spec_move_ok(*state, spec_wait_target(*state)))
            && (r matches Ok(o) ==> o == (ActionOutcome::Waited { at: spec_wait_target(*state) })),
        action == Action::UseRift ==> (r is Ok <==> crate::validation::spec_rift_ok(*state)) && (
        r == Err::<ActionOutcome, ActionError>(ActionError::NoRiftHere)
            <==> !state.cube.spec_has_rift(state.spec_player_position())) && (r matches Ok(o) ==> o
            == (ActionOutcome::Rifted {
            from: state.spec_player_position(),
            to: crate::validation::spec_rift_target_of(*state),
        })),
        action matches Action::Push(d) ==> (r is Ok <==> crate::validation::spec_push_ok(
            *state,
            d,
        )) && (r matches Ok(o) ==> (o matches ActionOutcome::Pushed { player_to, pushed }
            && player_to == spec_step_target(*state, d) && exists|len: int|
            1 <= len <= state.config.max_push_chain
                && #[trigger] crate::validation::spec_chain_filled(*state, d, len) && pushed@
                == crate::validation::spec_push_pairs(*state, d, len))),
        action matches Action::Pull(d) ==> (r is Ok <==> crate::validation::spec_pull_ok(
            *state,
            d,
        )) && (r matches Ok(o) ==> o == (ActionOutcome::Pulled {
            player_to: spec_step_target(*state, d),
            pulled_id: crate::validation::spec_pull_occupants(*state, d)[0].id,
            pulled_to: crate::validation::spec_pull_dest(*state),
        })),
        action == Action::Restart ==> r == Ok::<ActionOutcome, ActionError>(
            ActionOutcome::Restarted,
        ),
{
    match action {
        Action::Move(direction) => {
            let from = state.player_position();
            match validate_directional_move(state, direction) {
                Ok(to) => Ok(ActionOutcome::Moved { from, to }),
                Err(e) => Err(ActionError::MoveBlocked(e)),
            }
        },
        Action::Wait => {
            match validate_wait(state) {
                Ok(at) => Ok(ActionOutcome::Waited { at }),
                Err(e) => Err(ActionError::MoveBlocked(e)),
            }
        },
        Action::UseRift => {
            let from = state.player_position();
            match validate_rift(state) {
                Ok(to) => Ok(ActionOutcome::Rifted { from, to }),
                Err(e) => Err(e),
            }
        },
        Action::Push(direction) => {
            match validate_push(state, direction) {
                Ok(moves) => {
                    let player_to = state.player_position().step(direction);
                    let mut pushed: Vec<(EntityId, Position)> = Vec::new();
                    let n = moves.len();
                    for k in 0..n
                        invariant
                            n == moves@.len(),
                            pushed@.len() == k,
                            forall|k2: int|
                                0 <= k2 < k ==> (#[trigger] pushed@[k2]) == ((
                                    moves@[k2].0,
                                    moves@[k2].2,
                                )),
                    {
                        pushed.push((moves[k].0, moves[k].2));
                    }
                    proof {
                        assert(pushed@ =~= crate::validation::spec_push_pairs(
                            *state,
                            direction,
                            moves@.len() as int,
                        ));
                    }
                    Ok(ActionOutcome::Pushed { player_to, pushed })
                },
                Err(e) => Err(e),
            }
        },
        Action::Pull(direction) => {
            match validate_pull(state, direction) {
                Ok((id, _, to)) => {
                    let player_to = state.player_position().step(direction);
                    Ok(ActionOutcome::Pulled { player_to, pulled_id: id, pulled_to: to })
                },
                Err(e) => Err(e),
            }
        },
        Action::Restart => Ok(ActionOutcome::Restarted),
    }
}

/// Validate an action without applying or previewing it.
pub fn validate_action(state: &GameState, action: Action) -> (r: Result<(), ActionError>)
    requires
        state.wf(),
    ensures
        action matches Action::Move(d) ==> (r is Ok <==> spec_move_ok(
            *state,
            spec_step_target(*state, d),
        )),
        action == Action::Wait ==> (r is Ok <==> spec_move_ok(*state, spec_wait_target(*state))),
        action == Action::UseRift ==> (r is Ok <==> crate::validation::spec_rift_ok(*state)) && (
        r == Err::<(), ActionError>(ActionError::NoRiftHere) <==> !state.cube.spec_has_rift(
            state.spec_player_position(),
        )),
        action matches Action::Push(d) ==> (r is Ok <==> crate::validation::spec_push_ok(
            *state,
            d,
        )) && (r == Err::<(), ActionError>(ActionError::NothingToPush { direction: d })
            <==> !crate::validation::spec_has_pushable_at(
            state.cube,
            crate::validation::spec_chain_cell(state.spec_player_position(), d, 0),
        )),
        action matches Action::Pull(d) ==> (r is Ok <==> crate::validation::spec_pull_ok(
            *state,
            d,
        )),
        action == Action::Restart ==> r is Ok,
{
    match action {
        Action::Move(direction) => {
            match validate_directional_move(state, direction) {
                Ok(_) => Ok(()),
                Err(e) => Err(ActionError::MoveBlocked(e)),
            }
        },
        Action::Wait => {
            match validate_wait(state) {
                Ok(_) => Ok(()),
                Err(e) => Err(ActionError::MoveBlocked(e)),
            }
        },
        Action::UseRift => {
            match validate_rift(state) {
                Ok(_) => Ok(()),
                Err(e) => Err(e),
            }
        },
        Action::Push(direction) => {
            match validate_push(state, direction) {
                Ok(_) => Ok(()),
                Err(e) => Err(e),
            }
        },
        Action::Pull(direction) => {
            match validate_pull(state, direction) {
                Ok(_) => Ok(()),
                Err(e) => Err(e),
            }
        },
        Action::Restart => Ok(()),
    }
}

impl GameState {
    /// Check if a position is valid for the player to move to.
    pub fn can_move_to(&self, pos: Position) -> (r: bool)
        requires
            self.wf(),
        ensures
            r == spec_move_ok(*self, pos),
    {
        crate::validation::validate_move_target(self, pos).is_ok()
    }

    /// Get the detailed validation result for a position.
    pub fn validate_position(&self, pos: Position) -> (r: Result<(), MoveError>)
        requires
            self.wf(),
        ensures
            r is Ok <==> spec_move_ok(*self, pos),
    {
        crate::validation::validate_move_target(self, pos)
    }

    /// Enumerate the currently legal actions (used for hinting). Restart is
    /// always legal; a move or wait is listed exactly when its target is
    /// admissible.
    /// Enumerate the currently legal actions (used for hinting). Restart is
    /// always legal, in every phase; while the game is active, each move,
    /// push, pull, wait and rift action is listed exactly when it validates.
    pub fn valid_actions(&self) -> (r: Vec<Action>)
        requires
            self.wf(),
        ensures
            r@.contains(Action::Restart),
            self.phase != GamePhase::Playing ==> r@ =~= seq![Action::Restart],
            self.phase == GamePhase::Playing ==> {
                &&& forall|d: Direction|
                    r@.contains(Action::Move(d)) <==> spec_move_ok(
                        *self,
                        spec_step_target(*self, d),
                    )
                &&& forall|d: Direction|
                    r@.contains(Action::Push(d)) <==> crate::validation::spec_push_ok(*self, d)
                &&& forall|d: Direction|
                    r@.contains(Action::Pull(d)) <==> crate::validation::spec_pull_ok(*self, d)
                &&& (r@.contains(Action::Wait) <==> spec_move_ok(*self, spec_wait_target(*self)))
                &&& (r@.contains(Action::UseRift) <==> crate::validation::spec_rift_ok(*self))
            },
    {
        if !self.is_active() {
            let mut actions: Vec<Action> = Vec::new();
            actions.push(Action::Restart);
            proof {
                assert(actions@ =~= seq![Action::Restart]);
                assert(actions@[0] == Action::Restart);
            }
            return actions;
        }
        let mut actions: Vec<Action> = Vec::new();
        let dirs = Direction::all();
        let ghost dirseq = seq![
            Direction::North,
            Direction::South,
            Direction::East,
            Direction::West,
        ];
        let mut di: usize = 0;
        while di < 4
            invariant
                self.wf(),
                di <= 4,
                dirs@ == dirseq,
                forall|j: int|
                    0 <= j < di ==> (spec_move_ok(*self, spec_step_target(*self, dirseq[j]))
                        ==> actions@.contains(Action::Move(dirseq[j]))),
                forall|j: int|
                    0 <= j < di ==> (crate::validation::spec_push_ok(*self, dirseq[j])
                        ==> actions@.contains(Action::Push(dirseq[j]))),
                forall|j: int|
                    0 <= j < di ==> (crate::validation::spec_pull_ok(*self, dirseq[j])
                        ==> actions@.contains(Action::Pull(dirseq[j]))),
                forall|k: int|
                    0 <= k < actions@.len() ==> ((#[trigger] actions@[k]) matches Action::Move(d2)
                        ==> spec_move_ok(*self, spec_step_target(*self, d2))),
                forall|k: int|
                    0 <= k < actions@.len() ==> ((#[trigger] actions@[k]) matches Action::Push(d2)
                        ==> crate::validation::spec_push_ok(*self, d2)),
                forall|k: int|
                    0 <= k < actions@.len() ==> ((#[trigger] actions@[k]) matches Action::Pull(d2)
                        ==> crate::validation::spec_pull_ok(*self, d2)),
                forall|k: int| 0 <= k < actions@.len() ==> actions@[k] != Action::Wait,
                forall|k: int| 0 <= k < actions@.len() ==> actions@[k] != Action::UseRift,
                forall|k: int| 0 <= k < actions@.len() ==> actions@[k] != Action::Restart,
            decreases 4 - di,
        {
            let d = dirs[di];
            let ghost pre = actions@;
            let mok = validate_directional_move(self, d).is_ok();
            if mok {
                actions.push(Action::Move(d));
            }
            let ghost after_m = actions@;
            let pok = validate_push(self, d).is_ok();
            if pok {
                actions.push(Action::Push(d));
            }
            let ghost after_p = actions@;
            let lok = validate_pull(self, d).is_ok();
            if lok {
                actions.push(Action::Pull(d));
            }
            proof {
                if mok {
                    assert(after_m[pre.len() as int] == Action::Move(dirseq[di as int]));
                    assert(after_m.contains(Action::Move(dirseq[di as int])));
                    lemma_prefix_contains_action(after_m, after_p, Action::Move(dirseq[di as int]));
                    lemma_prefix_contains_action(
                        after_p,
                        actions@,
                        Action::Move(dirseq[di as int]),
                    );
                }
                if pok {
                    assert(after_p[after_m.len() as int] == Action::Push(dirseq[di as int]));
                    assert(after_p.contains(Action::Push(dirseq[di as int])));
                    lemma_prefix_contains_action(
                        after_p,
                        actions@,
                        Action::Push(dirseq[di as int]),
                    );
                }
                if lok {
                    assert(actions@[after_p.len() as int] == Action::Pull(dirseq[di as int]));
                    assert(actions@.contains(Action::Pull(dirseq[di as int])));
                }
                assert forall|j: int|
                    0 <= j < di + 1 && spec_move_ok(
                        *self,
                        spec_step_target(*self, dirseq[j]),
                    ) implies actions@.contains(Action::Move(dirseq[j])) by {
                    if j < di {
                        lemma_prefix_contains_action(pre, actions@, Action::Move(dirseq[j]));
                    }
                }
                assert forall|j: int|
                    0 <= j < di + 1 && crate::validation::spec_push_ok(
                        *self,
                        dirseq[j],
                    ) implies actions@.contains(Action::Push(dirseq[j])) by {
                    if j < di {
                        lemma_prefix_contains_action(pre, actions@, Action::Push(dirseq[j]));
                    }
                }
                assert forall|j: int|
                    0 <= j < di + 1 && crate::validation::spec_pull_ok(
                        *self,
                        dirseq[j],
                    ) implies actions@.contains(Action::Pull(dirseq[j])) by {
                    if j < di {
                        lemma_prefix_contains_action(pre, actions@, Action::Pull(dirseq[j]));
                    }
                }
            }
            di = di + 1;
        }
        let ghost pre_wait = actions@;
        let wok = validate_wait(self).is_ok();
        if wok {
            actions.push(Action::Wait);
        }
        let ghost pre_rift = actions@;
        let rok = validate_rift(self).is_ok();
        if rok {
            actions.push(Action::UseRift);
        }
        let ghost pre_restart = actions@;
        actions.push(Action::Restart);
        proof {
            assert(actions@.last() == Action::Restart);
            assert(actions@.contains(Action::Restart));
            if wok {
                assert(pre_rift[pre_wait.len() as int] == Action::Wait);
                assert(pre_rift.contains(Action::Wait));
                lemma_prefix_contains_action(pre_rift, pre_restart, Action::Wait);
                lemma_prefix_contains_action(pre_restart, actions@, Action::Wait);
            }
            if rok {
                assert(pre_restart[pre_rift.len() as int] == Action::UseRift);
                assert(pre_restart.contains(Action::UseRift));
                lemma_prefix_contains_action(pre_restart, actions@, Action::UseRift);
            }
            assert forall|d: Direction|
                spec_move_ok(*self, spec_step_target(*self, d)) implies actions@.contains(
                Action::Move(d),
            ) by {
                assert(d == Direction::North || d == Direction::South || d == Direction::East || d
                    == Direction::West);
                lemma_prefix_contains_action(pre_wait, pre_rift, Action::Move(d));
                lemma_prefix_contains_action(pre_rift, pre_restart, Action::Move(d));
                lemma_prefix_contains_action(pre_restart, actions@, Action::Move(d));
            }
            assert forall|d: Direction|
                crate::validation::spec_push_ok(*self, d) implies actions@.contains(
                Action::Push(d),
            ) by {
                assert(d == Direction::North || d == Direction::South || d == Direction::East || d
                    == Direction::West);
                lemma_prefix_contains_action(pre_wait, pre_rift, Action::Push(d));
                lemma_prefix_contains_action(pre_rift, pre_restart, Action::Push(d));
                lemma_prefix_contains_action(pre_restart, actions@, Action::Push(d));
            }
            assert forall|d: Direction|
                crate::validation::spec_pull_ok(*self, d) implies actions@.contains(
                Action::Pull(d),
            ) by {
                assert(d == Direction::North || d == Direction::South || d == Direction::East || d
                    == Direction::West);
                lemma_prefix_contains_action(pre_wait, pre_rift, Action::Pull(d));
                lemma_prefix_contains_action(pre_rift, pre_restart, Action::Pull(d));
                lemma_prefix_contains_action(pre_restart, actions@, Action::Pull(d));
            }
            assert forall|k: int|
                0 <= k < actions@.len() implies {
                &&& ((#[trigger] actions@[k]) matches Action::Move(d2) ==> spec_move_ok(
                    *self,
                    spec_step_target(*self, d2),
                ))
                &&& (actions@[k] matches Action::Push(d2) ==> crate::validation::spec_push_ok(
                    *self,
                    d2,
                ))
                &&& (actions@[k] matches Action::Pull(d2) ==> crate::validation::spec_pull_ok(
                    *self,
                    d2,
                ))
                &&& (actions@[k] == Action::Wait ==> spec_move_ok(*self, spec_wait_target(*self)))
                &&& (actions@[k] == Action::UseRift ==> crate::validation::spec_rift_ok(*self))
            } by {
                if k < pre_wait.len() {
                    assert(actions@[k] == pre_wait[k]);
                } else if k < pre_rift.len() {
                    assert(actions@[k] == pre_rift[k]);
                    assert(actions@[k] == Action::Wait);
                } else if k < pre_restart.len() {
                    assert(actions@[k] == pre_restart[k]);
                    assert(actions@[k] == Action::UseRift);
                } else {
                    assert(actions@[k] == Action::Restart);
                }
            }
            if actions@.contains(Action::Wait) {
                let w = choose|w: int| 0 <= w < actions@.len() && actions@[w] == Action::Wait;
            }
            if actions@.contains(Action::UseRift) {
                let w = choose|w: int| 0 <= w < actions@.len() && actions@[w] == Action::UseRift;
            }
        }
        actions
    }

    /// The positions the player could move to in one action (for UI hints).
    pub fn reachable_positions(&self) -> (r: Vec<Position>)
        requires
            self.wf(),
        ensures
            forall|d: Direction|
                spec_move_ok(*self, spec_step_target(*self, d)) ==> r@.contains(
                    spec_step_target(*self, d),
                ),
            spec_move_ok(*self, spec_wait_target(*self)) ==> r@.contains(spec_wait_target(*self)),
            crate::validation::spec_rift_ok(*self) ==> r@.contains(
                crate::validation::spec_rift_target_of(*self),
            ),
            forall|k: int|
                0 <= k < r@.len() ==> {
                    ||| crate::validation::spec_move_target_pos(*self, #[trigger] r@[k])
                    ||| r@[k] == spec_wait_target(*self) && spec_move_ok(
                        *self,
                        spec_wait_target(*self),
                    )
                    ||| r@[k] == crate::validation::spec_rift_target_of(*self)
                        && crate::validation::spec_rift_ok(*self)
                },
    {
        let pairs = crate::validation::find_reachable_positions(self);
        let mut out: Vec<Position> = Vec::new();
        let n = pairs.len();
        for i in 0..n
            invariant
                n == pairs@.len(),
                out@.len() == i,
                forall|j: int| 0 <= j < i ==> out@[j] == (#[trigger] pairs@[j]).0,
        {
            out.push(pairs[i].0);
        }
        proof {
            assert forall|d: Direction|
                spec_move_ok(*self, spec_step_target(*self, d)) implies out@.contains(
                spec_step_target(*self, d),
            ) by {
                let w = choose|w: int|
                    0 <= w < pairs@.len() && pairs@[w] == ((
                        spec_step_target(*self, d),
                        Action::Move(d),
                    ));
                assert(out@[w] == spec_step_target(*self, d));
            }
            if spec_move_ok(*self, spec_wait_target(*self)) {
                let w = choose|w: int|
                    0 <= w < pairs@.len() && pairs@[w] == ((spec_wait_target(*self), Action::Wait));
                assert(out@[w] == spec_wait_target(*self));
            }
            if crate::validation::spec_rift_ok(*self) {
                let w = choose|w: int|
                    0 <= w < pairs@.len() && pairs@[w] == ((
                        crate::validation::spec_rift_target_of(*self),
                        Action::UseRift,
                    ));
                assert(out@[w] == crate::validation::spec_rift_target_of(*self));
            }
            assert forall|k: int| 0 <= k < out@.len() implies {
                ||| crate::validation::spec_move_target_pos(*self, #[trigger] out@[k])
                ||| out@[k] == spec_wait_target(*self) && spec_move_ok(
                    *self,
                    spec_wait_target(*self),
                )
                ||| out@[k] == crate::validation::spec_rift_target_of(*self)
                    && crate::validation::spec_rift_ok(*self)
            } by {
                assert(out@[k] == pairs@[k].0);
                if crate::validation::spec_move_entry(*self, pairs@[k]) {
                    let d = choose|d: Direction|
                        pairs@[k] == ((
                            #[trigger] spec_step_target(*self, d),
                            Action::Move(d),
                        )) && spec_move_ok(*self, spec_step_target(*self, d));
                    assert(out@[k] == spec_step_target(*self, d));
                    assert(crate::validation::spec_move_target_pos(*self, out@[k]));
                }
            }
        }
        out
    }
}

} // verus!
