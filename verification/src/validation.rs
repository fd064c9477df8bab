//! Move and action validation logic.

use vstd::prelude::*;

use crate::actions::{Action, ActionError, MoveError, RiftTargetReason};
use crate::components::EntityId;
use crate::entity::Entity;
use crate::position::{spec_delta, Direction, Position, SpatialPos};
use crate::state::GameState;
use crate::time_cube::TimeCube;

verus! {

/// The target is admissible for the player: within the time range, in
/// bounds, free of movement-blocking entities, and not yet visited.
pub open spec fn spec_move_ok(s: GameState, target: Position) -> bool {
    &&& (target.t as int) < s.cube.time_depth
    &&& s.cube.spec_in_bounds(target)
    &&& !s.cube.spec_blocks_movement(target)
    &&& !s.world_line@.contains(target)
}

/// As `spec_move_ok`, but entities in `ignored` do not block (used when the
/// blockers themselves are being moved by the same action).
pub open spec fn spec_move_ok_ignoring(s: GameState, target: Position, ignored: Seq<
    EntityId,
>) -> bool {
    &&& (target.t as int) < s.cube.time_depth
    &&& s.cube.spec_in_bounds(target)
    &&& !spec_blocked_ignoring(s.cube, target, ignored)
    &&& !s.world_line@.contains(target)
}

/// Some entity at the position blocks movement and is not among the ignored
/// identifiers.
pub open spec fn spec_blocked_ignoring(cube: TimeCube, pos: Position, ignored: Seq<
    EntityId,
>) -> bool {
    cube.spec_in_bounds(pos) && exists|i: int|
        {
            &&& 0 <= i < cube.slices@[pos.t as int].abs_entities().len()
            &&& crate::time_slice::at_cell(
                #[trigger] cube.slices@[pos.t as int].abs_entities()[i],
                SpatialPos { x: pos.x, y: pos.y },
            )
            &&& cube.slices@[pos.t as int].abs_entities()[i].blocks_movement()
            &&& !ignored.contains(cube.slices@[pos.t as int].abs_entities()[i].id)
        }
}

/// The target is admissible for a displaced entity: in time range, in
/// bounds, and free of blockers outside the ignored set (the world line does
/// not constrain non-player entities).
pub open spec fn spec_entity_target_ok(cube: TimeCube, target: Position, ignored: Seq<
    EntityId,
>) -> bool {
    &&& (target.t as int) < cube.time_depth
    &&& cube.spec_in_bounds(target)
    &&& !spec_blocked_ignoring(cube, target, ignored)
}

/// The position the player reaches by stepping in a direction (one cell,
/// one time unit).
pub open spec fn spec_step_target(s: GameState, d: Direction) -> Position {
    Position {
        x: (s.spec_player_position().x + spec_delta(d).0) as i32,
        y: (s.spec_player_position().y + spec_delta(d).1) as i32,
        t: (s.spec_player_position().t + 1) as i32,
    }
}

/// The position the player reaches by waiting (time advances only).
pub open spec fn spec_wait_target(s: GameState) -> Position {
    Position {
        x: s.spec_player_position().x,
        y: s.spec_player_position().y,
        t: (s.spec_player_position().t + 1) as i32,
    }
}

/// A cell holds at least one pushable entity.
pub open spec fn spec_has_pushable_at(cube: TimeCube, pos: Position) -> bool {
    cube.spec_in_bounds(pos) && exists|i: int|
        {
            &&& 0 <= i < cube.slices@[pos.t as int].abs_entities().len()
            &&& crate::time_slice::at_cell(
                #[trigger] cube.slices@[pos.t as int].abs_entities()[i],
                SpatialPos { x: pos.x, y: pos.y },
            )
            &&& cube.slices@[pos.t as int].abs_entities()[i].is_pushable()
        }
}

/// A pushable entity with this identifier stands at the cell.
pub open spec fn spec_pushable_id_at(cube: TimeCube, cell: Position, id: EntityId) -> bool {
    exists|i: int|
        {
            &&& 0 <= i < cube.slices@[cell.t as int].abs_entities().len()
            &&& crate::time_slice::at_cell(
                #[trigger] cube.slices@[cell.t as int].abs_entities()[i],
                SpatialPos { x: cell.x, y: cell.y },
            )
            &&& cube.slices@[cell.t as int].abs_entities()[i].is_pushable()
            &&& cube.slices@[cell.t as int].abs_entities()[i].id == id
        }
}

/// The `k`-th cell scanned by a push in a direction: `k + 1` steps from the
/// player, same time.
pub open spec fn spec_chain_cell(start: Position, d: Direction, k: int) -> Position {
    Position {
        x: (start.x + (k + 1) * spec_delta(d).0) as i32,
        y: (start.y + (k + 1) * spec_delta(d).1) as i32,
        t: start.t,
    }
}

/// The identifier of the first pushable entity at a cell, in slice order.
pub open spec fn spec_first_pushable_in(
    es: Seq<crate::entity::AbsEntity>,
    cell: SpatialPos,
) -> EntityId
    decreases es.len(),
{
    if es.len() == 0 {
        0
    } else if crate::time_slice::at_cell(es[0], cell) && es[0].is_pushable() {
        es[0].id
    } else {
        spec_first_pushable_in(es.drop_first(), cell)
    }
}

/// The identifier of the first pushable entity at a position of the cube.
pub open spec fn spec_first_pushable_id(cube: TimeCube, pos: Position) -> EntityId {
    spec_first_pushable_in(
        cube.slices@[pos.t as int].abs_entities(),
        SpatialPos { x: pos.x, y: pos.y },
    )
}

/// `len` is the length of the pushable chain in front of the player: every
/// scanned cell before it holds a pushable entity, and the scan stopped
/// either at the first empty cell or one past the configured limit.
pub open spec fn spec_chain_filled(s: GameState, d: Direction, len: int) -> bool {
    &&& 0 <= len <= s.config.max_push_chain + 1
    &&& forall|k: int|
        0 <= k < len ==> spec_has_pushable_at(
            s.cube,
            #[trigger] spec_chain_cell(s.spec_player_position(), d, k),
        )
    &&& (len <= s.config.max_push_chain ==> !spec_has_pushable_at(
        s.cube,
        spec_chain_cell(s.spec_player_position(), d, len),
    ))
}

/// The identifiers of the chain members, in scan order.
pub open spec fn spec_push_ids(s: GameState, d: Direction, len: int) -> Seq<EntityId> {
    Seq::new(
        len as nat,
        |k: int| spec_first_pushable_id(s.cube, spec_chain_cell(s.spec_player_position(), d, k)),
    )
}

/// The destination of the `k`-th chain member: one cell onward, one time
/// unit later.
pub open spec fn spec_push_dest(s: GameState, d: Direction, k: int) -> Position {
    let from = spec_chain_cell(s.spec_player_position(), d, k);
    Position {
        x: (from.x + spec_delta(d).0) as i32,
        y: (from.y + spec_delta(d).1) as i32,
        t: (from.t + 1) as i32,
    }
}

/// The moves a successful push performs, in scan order.
pub open spec fn spec_push_moves(s: GameState, d: Direction, len: int) -> Seq<
    (EntityId, Position, Position),
> {
    Seq::new(
        len as nat,
        |k: int|
            (
                spec_first_pushable_id(s.cube, spec_chain_cell(s.spec_player_position(), d, k)),
                spec_chain_cell(s.spec_player_position(), d, k),
                spec_push_dest(s, d, k),
            ),
    )
}

/// The (identifier, destination) pairs a successful push reports, in scan
/// order.
pub open spec fn spec_push_pairs(s: GameState, d: Direction, len: int) -> Seq<
    (EntityId, Position),
> {
    Seq::new(
        len as nat,
        |k: int|
            (
                spec_first_pushable_id(s.cube, spec_chain_cell(s.spec_player_position(), d, k)),
                spec_push_dest(s, d, k),
            ),
    )
}

/// A push in this direction succeeds: a chain of one to `max_push_chain`
/// pushable entities stands in front of the player, the player's step
/// target is admissible ignoring the chain, and every chain destination in
/// the next slice is clear of blockers outside the chain.
pub open spec fn spec_push_ok(s: GameState, d: Direction) -> bool {
    exists|len: int|
        {
            &&& 1 <= len <= s.config.max_push_chain
            &&& #[trigger] spec_chain_filled(s, d, len)
            &&& spec_move_ok_ignoring(
                s,
                spec_step_target(s, d),
                spec_push_ids(s, d, len).push(s.player_id),
            )
            &&& forall|k: int|
                0 <= k < len ==> spec_entity_target_ok(
                    s.cube,
                    #[trigger] spec_push_dest(s, d, k),
                    spec_push_ids(s, d, len).push(s.player_id),
                )
        }
}

/// The cell behind the player for a pull in this direction.
pub open spec fn spec_pull_cell(s: GameState, d: Direction) -> Position {
    Position {
        x: (s.spec_player_position().x + spec_delta(crate::position::spec_opposite(d)).0) as i32,
        y: (s.spec_player_position().y + spec_delta(crate::position::spec_opposite(d)).1) as i32,
        t: s.spec_player_position().t,
    }
}

/// The entities standing on the pull cell, in slice order.
pub open spec fn spec_pull_occupants(s: GameState, d: Direction) -> Seq<crate::entity::AbsEntity> {
    crate::time_slice::spec_entities_at(
        s.cube.slices@[spec_pull_cell(s, d).t as int].abs_entities(),
        SpatialPos { x: spec_pull_cell(s, d).x, y: spec_pull_cell(s, d).y },
    )
}

/// The pulled entity's destination: the player's old cell, one time unit
/// later.
pub open spec fn spec_pull_dest(s: GameState) -> Position {
    Position {
        x: s.spec_player_position().x,
        y: s.spec_player_position().y,
        t: (s.spec_player_position().t + 1) as i32,
    }
}

/// A pull in this direction succeeds: the cell behind the player holds an
/// entity whose first occupant is pullable, and both the player's step
/// target and the pulled entity's destination are admissible ignoring the
/// two of them.
pub open spec fn spec_pull_ok(s: GameState, d: Direction) -> bool {
    &&& s.cube.spec_in_bounds(spec_pull_cell(s, d))
    &&& spec_pull_occupants(s, d).len() > 0
    &&& spec_pull_occupants(s, d)[0].is_pullable()
    &&& spec_move_ok_ignoring(
        s,
        spec_step_target(s, d),
        seq![spec_pull_occupants(s, d)[0].id, s.player_id],
    )
    &&& spec_entity_target_ok(
        s.cube,
        spec_pull_dest(s),
        seq![spec_pull_occupants(s, d)[0].id, s.player_id],
    )
}

/// The rift target at the player's current cell.
pub open spec fn spec_rift_target_of(s: GameState) -> Position {
    s.cube.spec_rift_target(s.spec_player_position())
}

/// A rift use succeeds: the player stands on a rift whose target is in
/// bounds and unvisited.
pub open spec fn spec_rift_ok(s: GameState) -> bool {
    &&& s.cube.spec_has_rift(s.spec_player_position())
    &&& s.cube.spec_in_bounds(spec_rift_target_of(s))
    &&& !s.world_line@.contains(spec_rift_target_of(s))
}

/// The first movement-blocking entity at `pos` outside `ignored`, if any.
pub fn blocking_entity_at<'a>(cube: &'a TimeCube, pos: Position, ignored: &Vec<EntityId>) -> (r:
    Option<&'a Entity>)
    requires
        cube.wf(),
    ensures
        r is Some <==> spec_blocked_ignoring(*cube, pos, ignored@),
        r matches Some(e) ==> e@.blocks_movement() && cube.spec_in_bounds(pos) && e.position.x
            == pos.x && e.position.y == pos.y && !ignored@.contains(e.id),
{
    if !cube.in_bounds(pos) {
        return None;
    }
    let idx = pos.t as usize;
    proof {
        assert(crate::time_cube::slice_consistent(
            cube.slices@[pos.t as int],
            pos.t as int,
            cube.width,
            cube.height,
        ));
    }
    let slice = &cube.slices[idx];
    let n = slice.entities.len();
    for i in 0..n
        invariant
            cube.wf(),
            cube.spec_in_bounds(pos),
            idx == pos.t as usize,
            (pos.t as int) < cube.slices@.len(),
            pos.t >= 0,
            slice == &cube.slices@[pos.t as int],
            n == slice.entities@.len(),
            forall|j: int|
                0 <= j < i ==> !(crate::time_slice::at_cell(
                    #[trigger] cube.slices@[pos.t as int].abs_entities()[j],
                    SpatialPos { x: pos.x, y: pos.y },
                ) && cube.slices@[pos.t as int].abs_entities()[j].blocks_movement()
                    && !ignored@.contains(cube.slices@[pos.t as int].abs_entities()[j].id)),
    {
        proof {
            assert(cube.slices@[pos.t as int].abs_entities()[i as int] == slice.entities@[
                i as int]@);
        }
        let e = &slice.entities[i];
        if e.position.x == pos.x && e.position.y == pos.y && e.blocks_movement() && !contains_id(
            ignored,
            e.id,
        ) {
            return Some(e);
        }
    }
    None
}

/// Does the identifier occur in the list?
fn contains_id(v: &Vec<EntityId>, id: EntityId) -> (r: bool)
    ensures
        r == v@.contains(id),
{
    let n = v.len();
    for i in 0..n
        invariant
            n == v@.len(),
            forall|j: int| 0 <= j < i ==> v@[j] != id,
    {
        if v[i] == id {
            proof {
                assert(v@[i as int] == id);
            }
            return true;
        }
    }
    false
}

/// Validate a target position for player movement, with the original error
/// precedence: time overflow, out of bounds, blocked, self-intersection.
pub fn validate_move_target(state: &GameState, target: Position) -> (r: Result<(), MoveError>)
    requires
        state.wf(),
    ensures
        r is Ok <==> spec_move_ok(*state, target),
        !((target.t as int) < state.cube.time_depth) ==> r == Err::<(), MoveError>(
            MoveError::TimeOverflow { t: target.t, max_t: (state.cube.time_depth - 1) as i32 },
        ),
        (target.t as int) < state.cube.time_depth && !state.cube.spec_in_bounds(target) ==> r
            == Err::<(), MoveError>(
            MoveError::OutOfBounds { x: target.x, y: target.y, t: target.t },
        ),
        state.cube.spec_in_bounds(target) && state.cube.spec_blocks_movement(target) ==> (
        r matches Err(e) && (e matches MoveError::Blocked { x, y, t, .. } && x == target.x && y
            == target.y && t == target.t)),
        (target.t as int) < state.cube.time_depth && state.cube.spec_in_bounds(target)
            && !state.cube.spec_blocks_movement(target) && state.world_line@.contains(target) ==> r
            == Err::<(), MoveError>(
            MoveError::SelfIntersection { x: target.x, y: target.y, t: target.t },
        ),
{
    if target.t >= state.cube.time_depth {
        return Err(
            MoveError::TimeOverflow { t: target.t, max_t: state.cube.time_depth - 1 },
        );
    }
    if !state.cube.in_bounds(target) {
        return Err(MoveError::OutOfBounds { x: target.x, y: target.y, t: target.t });
    }
    let none: Vec<EntityId> = Vec::new();
    if let Some(blocking) = blocking_entity_at(&state.cube, target, &none) {
        proof {
            lemma_blocked_ignoring_none(state.cube, target, none@);
        }
        return Err(
            MoveError::Blocked {
                x: target.x,
                y: target.y,
                t: target.t,
                entity_id: blocking.id,
                entity_type: blocking.entity_type(),
            },
        );
    }
    proof {
        lemma_blocked_ignoring_none(state.cube, target, none@);
    }
    if state.world_line.would_intersect(target) {
        return Err(MoveError::SelfIntersection { x: target.x, y: target.y, t: target.t });
    }
    Ok(())
}

/// Blocking with an empty ignore set is plain blocking.
pub proof fn lemma_blocked_ignoring_none(cube: TimeCube, pos: Position, ignored: Seq<EntityId>)
    requires
        ignored.len() == 0,
    ensures
        spec_blocked_ignoring(cube, pos, ignored) == cube.spec_blocks_movement(pos),
{
    if cube.spec_blocks_movement(pos) {
        let es = cube.slices@[pos.t as int].abs_entities();
        let i = choose|i: int|
            0 <= i < es.len() && crate::time_slice::at_cell(
                es[i],
                SpatialPos { x: pos.x, y: pos.y },
            ) && es[i].blocks_movement();
        assert(!ignored.contains(es[i].id));
        assert(spec_blocked_ignoring(cube, pos, ignored));
    }
    if spec_blocked_ignoring(cube, pos, ignored) {
        let es = cube.slices@[pos.t as int].abs_entities();
        let i = choose|i: int|
            0 <= i < es.len() && crate::time_slice::at_cell(
                es[i],
                SpatialPos { x: pos.x, y: pos.y },
            ) && es[i].blocks_movement() && !ignored.contains(es[i].id);
        assert(cube.spec_blocks_movement(pos));
    }
}

/// Validate a standard directional move.
pub fn validate_directional_move(state: &GameState, direction: Direction) -> (r: Result<
    Position,
    MoveError,
>)
    requires
        state.wf(),
    ensures
        r is Ok <==> spec_move_ok(*state, spec_step_target(*state, direction)),
        r matches Ok(p) ==> p == spec_step_target(*state, direction),
{
    let current = state.player_position();
    let target = current.step(direction);
    match validate_move_target(state, target) {
        Ok(_) => Ok(target),
        Err(e) => Err(e),
    }
}

/// Validate a wait action.
pub fn validate_wait(state: &GameState) -> (r: Result<Position, MoveError>)
    requires
        state.wf(),
    ensures
        r is Ok <==> spec_move_ok(*state, spec_wait_target(*state)),
        r matches Ok(p) ==> p == spec_wait_target(*state),
{
    let current = state.player_position();
    let target = current.wait();
    match validate_move_target(state, target) {
        Ok(_) => Ok(target),
        Err(e) => Err(e),
    }
}

/// Validate a rift usage: the player's cell must carry a rift whose target
/// is in bounds and unvisited.
pub fn validate_rift(state: &GameState) -> (r: Result<Position, ActionError>)
    requires
        state.wf(),
    ensures
        r == Err::<Position, ActionError>(ActionError::NoRiftHere) <==> !state.cube.spec_has_rift(
            state.spec_player_position(),
        ),
        r is Ok <==> spec_rift_ok(*state),
        r matches Err(e) ==> e is NoRiftHere || e is InvalidRiftTarget,
        r matches Ok(tp) ==> tp == spec_rift_target_of(*state),
        r matches Err(e) ==> (e matches ActionError::InvalidRiftTarget { target, reason }
            ==> target == spec_rift_target_of(*state) && (match reason {
            RiftTargetReason::OutOfBounds => !state.cube.spec_in_bounds(target),
            RiftTargetReason::SelfIntersection => state.cube.spec_in_bounds(target)
                && state.world_line@.contains(target),
        })),
{
    let current = state.player_position();
    let target = match state.cube.rift_target(current) {
        Some(t) => t,
        None => {
            return Err(ActionError::NoRiftHere);
        },
    };
    if !state.cube.in_bounds(target) {
        return Err(
            ActionError::InvalidRiftTarget { target, reason: RiftTargetReason::OutOfBounds },
        );
    }
    if state.world_line.would_intersect(target) {
        return Err(
            ActionError::InvalidRiftTarget {
                target,
                reason: RiftTargetReason::SelfIntersection,
            },
        );
    }
    Ok(target)
}

/// Check if a position would cause self-intersection with the world line.
pub fn would_self_intersect(state: &GameState, pos: Position) -> (r: bool)
    ensures
        r == state.world_line@.contains(pos),
{
    state.world_line.would_intersect(pos)
}

/// Validate a player move where the listed entities (the ones being moved
/// by the same action) do not block.
pub fn validate_player_move_with_ignores(
    state: &GameState,
    target: Position,
    ignored: &Vec<EntityId>,
) -> (r: Result<(), MoveError>)
    requires
        state.wf(),
    ensures
        r is Ok <==> spec_move_ok_ignoring(*state, target, ignored@),
{
    if target.t >= state.cube.time_depth {
        return Err(
            MoveError::TimeOverflow { t: target.t, max_t: state.cube.time_depth - 1 },
        );
    }
    if !state.cube.in_bounds(target) {
        return Err(MoveError::OutOfBounds { x: target.x, y: target.y, t: target.t });
    }
    if let Some(blocking) = blocking_entity_at(&state.cube, target, ignored) {
        return Err(
            MoveError::Blocked {
                x: target.x,
                y: target.y,
                t: target.t,
                entity_id: blocking.id,
                entity_type: blocking.entity_type(),
            },
        );
    }
    if state.world_line.would_intersect(target) {
        return Err(MoveError::SelfIntersection { x: target.x, y: target.y, t: target.t });
    }
    Ok(())
}

/// Validate a displaced entity's target (no world-line constraint).
pub fn validate_entity_target(cube: &TimeCube, target: Position, ignored: &Vec<EntityId>) -> (r:
    Result<(), MoveError>)
    requires
        cube.wf(),
    ensures
        r is Ok <==> spec_entity_target_ok(*cube, target, ignored@),
{
    if target.t >= cube.time_depth {
        return Err(MoveError::TimeOverflow { t: target.t, max_t: cube.time_depth - 1 });
    }
    if !cube.in_bounds(target) {
        return Err(MoveError::OutOfBounds { x: target.x, y: target.y, t: target.t });
    }
    if let Some(blocking) = blocking_entity_at(cube, target, ignored) {
        return Err(
            MoveError::Blocked {
                x: target.x,
                y: target.y,
                t: target.t,
                entity_id: blocking.id,
                entity_type: blocking.entity_type(),
            },
        );
    }
    Ok(())
}

/// Collect the chain of consecutive pushable entities in front of the
/// player: the first pushable entity of each scanned cell, stopping at the
/// first cell without one or once the chain exceeds the limit.
pub fn compute_push_chain(
    cube: &TimeCube,
    start_pos: Position,
    direction: Direction,
    max_chain: usize,
) -> (r: Vec<(EntityId, Position)>)
    requires
        cube.wf(),
        cube.spec_in_bounds(start_pos),
    ensures
        r@.len() <= max_chain + 1,
        forall|k: int|
            0 <= k < r@.len() ==> (#[trigger] r@[k]).1 == spec_chain_cell(
                start_pos,
                direction,
                k,
            ),
        forall|k: int|
            0 <= k < r@.len() ==> spec_has_pushable_at(
                *cube,
                #[trigger] spec_chain_cell(start_pos, direction, k),
            ),
        forall|k: int|
            0 <= k < r@.len() ==> {
                spec_pushable_id_at(*cube, (#[trigger] r@[k]).1, r@[k].0)
            },
        forall|k: int|
            0 <= k < r@.len() ==> (#[trigger] r@[k]).0 == spec_first_pushable_id(*cube, r@[k].1),
        r@.len() <= max_chain ==> !spec_has_pushable_at(
            *cube,
            spec_chain_cell(start_pos, direction, r@.len() as int),
        ),
{
    let mut chain: Vec<(EntityId, Position)> = Vec::new();
    let mut current = start_pos.move_dir(direction);
    loop
        invariant_except_break
            cube.wf(),
            cube.spec_in_bounds(start_pos),
            chain@.len() <= max_chain + 1,
            start_pos.x as int + (chain@.len() + 1) * spec_delta(direction).0 == current.x as int,
            start_pos.y as int + (chain@.len() + 1) * spec_delta(direction).1 == current.y as int,
            current.t == start_pos.t,
            forall|k: int|
                0 <= k < chain@.len() ==> (#[trigger] chain@[k]).1 == spec_chain_cell(
                    start_pos,
                    direction,
                    k,
                ),
            forall|k: int|
                0 <= k < chain@.len() ==> spec_has_pushable_at(
                    *cube,
                    #[trigger] spec_chain_cell(start_pos, direction, k),
                ),
            forall|k: int|
                0 <= k < chain@.len() ==> {
                    spec_pushable_id_at(*cube, (#[trigger] chain@[k]).1, chain@[k].0)
                },
            forall|k: int|
                0 <= k < chain@.len() ==> (#[trigger] chain@[k]).0 == spec_first_pushable_id(
                    *cube,
                    chain@[k].1,
                ),
        ensures
            chain@.len() <= max_chain + 1,
            forall|k: int|
                0 <= k < chain@.len() ==> (#[trigger] chain@[k]).1 == spec_chain_cell(
                    start_pos,
                    direction,
                    k,
                ),
            forall|k: int|
                0 <= k < chain@.len() ==> spec_has_pushable_at(
                    *cube,
                    #[trigger] spec_chain_cell(start_pos, direction, k),
                ),
            forall|k: int|
                0 <= k < chain@.len() ==> {
                    spec_pushable_id_at(*cube, (#[trigger] chain@[k]).1, chain@[k].0)
                },
            forall|k: int|
                0 <= k < chain@.len() ==> (#[trigger] chain@[k]).0 == spec_first_pushable_id(
                    *cube,
                    chain@[k].1,
                ),
            chain@.len() <= max_chain ==> !spec_has_pushable_at(
                *cube,
                spec_chain_cell(start_pos, direction, chain@.len() as int),
            ),
        decreases max_chain + 2 - chain@.len(),
    {
        proof {
            assert(current == spec_chain_cell(start_pos, direction, chain@.len() as int));
        }
        if chain.len() > max_chain {
            break;
        }
        match first_pushable_at(cube, current) {
            Some(id) => {
                chain.push((id, current));
                proof {
                    lemma_chain_cell_step(start_pos, direction, chain@.len() - 1);
                    assert(cube.spec_in_bounds(current));
                    assert(chain@[chain@.len() - 1] == ((id, current)));
                    assert(spec_pushable_id_at(*cube, current, id));
                }
                current = current.move_dir(direction);
            },
            None => {
                break;
            },
        }
    }
    chain
}

/// Chain cells advance by one unit step.
proof fn lemma_chain_cell_step(start: Position, d: Direction, k: int)
    by (nonlinear_arith)
    requires
        k >= 0,
    ensures
        (k + 1 + 1) * spec_delta(d).0 == (k + 1) * spec_delta(d).0 + spec_delta(d).0,
        (k + 1 + 1) * spec_delta(d).1 == (k + 1) * spec_delta(d).1 + spec_delta(d).1,
{
}

/// The first pushable entity's identifier at a cell, if any.
fn first_pushable_at(cube: &TimeCube, pos: Position) -> (r: Option<EntityId>)
    requires
        cube.wf(),
    ensures
        r is Some <==> spec_has_pushable_at(*cube, pos),
        r matches Some(id) ==> spec_pushable_id_at(*cube, pos, id) && id == spec_first_pushable_id(
            *cube,
            pos,
        ),
{
    if !cube.in_bounds(pos) {
        return None;
    }
    let idx = pos.t as usize;
    proof {
        assert(crate::time_cube::slice_consistent(
            cube.slices@[pos.t as int],
            pos.t as int,
            cube.width,
            cube.height,
        ));
    }
    let slice = &cube.slices[idx];
    let ghost es = cube.slices@[pos.t as int].abs_entities();
    let ghost cell = SpatialPos { x: pos.x, y: pos.y };
    let n = slice.entities.len();
    proof {
        assert(es.skip(0) =~= es);
    }
    for i in 0..n
        invariant
            cube.wf(),
            cube.spec_in_bounds(pos),
            idx == pos.t as usize,
            (pos.t as int) < cube.slices@.len(),
            pos.t >= 0,
            slice == &cube.slices@[pos.t as int],
            n == slice.entities@.len(),
            es == cube.slices@[pos.t as int].abs_entities(),
            cell == (SpatialPos { x: pos.x, y: pos.y }),
            spec_first_pushable_in(es, cell) == spec_first_pushable_in(es.skip(i as int), cell),
            forall|j: int|
                0 <= j < i ==> !(crate::time_slice::at_cell(
                    #[trigger] cube.slices@[pos.t as int].abs_entities()[j],
                    SpatialPos { x: pos.x, y: pos.y },
                ) && cube.slices@[pos.t as int].abs_entities()[j].is_pushable()),
    {
        proof {
            assert(cube.slices@[pos.t as int].abs_entities()[i as int] == slice.entities@[
                i as int]@);
            assert(es.skip(i as int).drop_first() =~= es.skip(i + 1));
            assert(es.skip(i as int)[0] == es[i as int]);
        }
        let e = &slice.entities[i];
        if e.position.x == pos.x && e.position.y == pos.y && e.is_pushable() {
            proof {
                assert(spec_pushable_id_at(*cube, pos, e.id));
                assert(spec_first_pushable_in(es.skip(i as int), cell) == es[i as int].id);
            }
            return Some(e.id);
        }
    }
    None
}

/// At most one length can describe the pushable chain: the scan stops at a
/// unique point.
proof fn lemma_chain_filled_unique(s: GameState, d: Direction, a: int, b: int)
    requires
        spec_chain_filled(s, d, a),
        spec_chain_filled(s, d, b),
    ensures
        a == b,
{
    if a < b {
        assert(spec_has_pushable_at(s.cube, spec_chain_cell(s.spec_player_position(), d, a)));
    } else if b < a {
        assert(spec_has_pushable_at(s.cube, spec_chain_cell(s.spec_player_position(), d, b)));
    }
}

/// Validate a push: scan the chain, bound its length, then check the
/// player's destination and every pushed entity's destination against the
/// next time slice, ignoring the pushed entities and the player as blockers
/// of each other.
pub fn validate_push(state: &GameState, direction: Direction) -> (r: Result<
    Vec<(EntityId, Position, Position)>,
    ActionError,
>)
    requires
        state.wf(),
    ensures
        r == Err::<Vec<(EntityId, Position, Position)>, ActionError>(
            ActionError::NothingToPush { direction },
        ) <==> !spec_has_pushable_at(
            state.cube,
            spec_chain_cell(state.spec_player_position(), direction, 0),
        ),
        r matches Err(e) ==> (e matches ActionError::PushChainTooLong { chain_length, max }
            ==> max == state.config.max_push_chain && chain_length > max && forall|k: int|
            0 <= k <= state.config.max_push_chain ==> spec_has_pushable_at(
                state.cube,
                #[trigger] spec_chain_cell(state.spec_player_position(), direction, k),
            )),
        (forall|k: int|
            0 <= k <= state.config.max_push_chain ==> spec_has_pushable_at(
                state.cube,
                #[trigger] spec_chain_cell(state.spec_player_position(), direction, k),
            )) ==> (r matches Err(e) && e matches ActionError::PushChainTooLong { .. }),
        r is Ok <==> spec_push_ok(*state, direction),
        r matches Err(e) ==> e is NothingToPush || e is PushChainTooLong || e is MoveBlocked
            || e is PushBlocked,
        r matches Ok(moves) ==> {
            &&& 1 <= moves@.len() <= state.config.max_push_chain
            &&& spec_chain_filled(*state, direction, moves@.len() as int)
            &&& moves@ == spec_push_moves(*state, direction, moves@.len() as int)
            &&& forall|k: int|
                0 <= k < moves@.len() ==> {
                    let m = #[trigger] moves@[k];
                    let from = spec_chain_cell(state.spec_player_position(), direction, k);
                    &&& m.1 == from
                    &&& m.2 == (Position {
                        x: (from.x + spec_delta(direction).0) as i32,
                        y: (from.y + spec_delta(direction).1) as i32,
                        t: (from.t + 1) as i32,
                    })
                    &&& spec_has_pushable_at(state.cube, from)
                    &&& spec_pushable_id_at(state.cube, from, m.0)
                    &&& state.cube.spec_in_bounds(m.2)
                    &&& state.cube.spec_has_entity_at(m.0, state.spec_player_position().t as int)
                }
            &&& spec_move_ok_ignoring(
                *state,
                spec_step_target(*state, direction),
                moves@.map_values(|m: (EntityId, Position, Position)| m.0).push(state.player_id),
            )
        },
        r matches Err(e) ==> (e matches ActionError::MoveBlocked(me) ==> exists|len: int|
            1 <= len <= state.config.max_push_chain && #[trigger] spec_chain_filled(
                *state,
                direction,
                len,
            ) && !spec_move_ok_ignoring(
                *state,
                spec_step_target(*state, direction),
                spec_push_ids(*state, direction, len).push(state.player_id),
            )),
        r matches Err(e) ==> (e matches ActionError::PushBlocked { blocked_at } ==> exists|
            len: int,
            k: int,
        |
            #![trigger spec_chain_filled(*state, direction, len), spec_push_dest(*state, direction, k)]
            1 <= len <= state.config.max_push_chain && spec_chain_filled(*state, direction, len)
                && 0 <= k < len && blocked_at == spec_push_dest(*state, direction, k)
                && !spec_entity_target_ok(
                state.cube,
                blocked_at,
                spec_push_ids(*state, direction, len).push(state.player_id),
            )),
{
    let current = state.player_position();
    let max_chain = state.config.max_push_chain;
    let chain = compute_push_chain(&state.cube, current, direction, max_chain);
    if chain.len() == 0 {
        proof {
            assert(!spec_has_pushable_at(
                state.cube,
                spec_chain_cell(state.spec_player_position(), direction, 0),
            ));
        }
        proof {
            assert(spec_chain_filled(*state, direction, 0));
            if spec_push_ok(*state, direction) {
                let len = choose|len: int|
                    1 <= len <= state.config.max_push_chain && #[trigger] spec_chain_filled(
                        *state,
                        direction,
                        len,
                    ) && spec_move_ok_ignoring(
                        *state,
                        spec_step_target(*state, direction),
                        spec_push_ids(*state, direction, len).push(state.player_id),
                    ) && forall|k: int|
                        0 <= k < len ==> spec_entity_target_ok(
                            state.cube,
                            #[trigger] spec_push_dest(*state, direction, k),
                            spec_push_ids(*state, direction, len).push(state.player_id),
                        );
                lemma_chain_filled_unique(*state, direction, 0, len);
            }
        }
        return Err(ActionError::NothingToPush { direction });
    }
    proof {
        assert(spec_has_pushable_at(
            state.cube,
            spec_chain_cell(state.spec_player_position(), direction, 0),
        ));
    }
    if chain.len() > max_chain {
        proof {
            assert(chain@.len() == max_chain + 1);
            assert forall|k: int| 0 <= k <= max_chain implies spec_has_pushable_at(
                state.cube,
                #[trigger] spec_chain_cell(state.spec_player_position(), direction, k),
            ) by {
                assert(spec_has_pushable_at(
                    state.cube,
                    spec_chain_cell(state.spec_player_position(), direction, k),
                ));
            }
        }
        proof {
            if spec_push_ok(*state, direction) {
                let len = choose|len: int|
                    1 <= len <= state.config.max_push_chain && #[trigger] spec_chain_filled(
                        *state,
                        direction,
                        len,
                    ) && spec_move_ok_ignoring(
                        *state,
                        spec_step_target(*state, direction),
                        spec_push_ids(*state, direction, len).push(state.player_id),
                    ) && forall|k: int|
                        0 <= k < len ==> spec_entity_target_ok(
                            state.cube,
                            #[trigger] spec_push_dest(*state, direction, k),
                            spec_push_ids(*state, direction, len).push(state.player_id),
                        );
                assert(spec_chain_filled(*state, direction, chain@.len() as int));
                lemma_chain_filled_unique(*state, direction, chain@.len() as int, len);
            }
        }
        return Err(
            ActionError::PushChainTooLong { chain_length: chain.len(), max: max_chain },
        );
    }
    proof {
        assert(!spec_has_pushable_at(
            state.cube,
            spec_chain_cell(state.spec_player_position(), direction, chain@.len() as int),
        ));
    }
    let player_to = current.step(direction);
    let mut ignored_ids: Vec<EntityId> = Vec::new();
    let n = chain.len();
    for i in 0..n
        invariant
            n == chain@.len(),
            ignored_ids@ =~= chain@.subrange(0, i as int).map_values(
                |m: (EntityId, Position)| m.0,
            ),
    {
        proof {
            assert(chain@.subrange(0, i + 1).drop_last() =~= chain@.subrange(0, i as int));
        }
        ignored_ids.push(chain[i].0);
        proof {
            assert(ignored_ids@ =~= chain@.subrange(0, i + 1).map_values(
                |m: (EntityId, Position)| m.0,
            ));
        }
    }
    proof {
        assert(chain@.subrange(0, n as int) =~= chain@);
    }
    ignored_ids.push(state.player_id);
    let ghost glen = chain@.len() as int;
    proof {
        assert(spec_chain_filled(*state, direction, glen));
        assert(ignored_ids@ =~= spec_push_ids(*state, direction, glen).push(state.player_id));
    }
    if let Err(e) = validate_player_move_with_ignores(state, player_to, &ignored_ids) {
        proof {
            assert(!spec_move_ok_ignoring(
                *state,
                spec_step_target(*state, direction),
                spec_push_ids(*state, direction, glen).push(state.player_id),
            ));
            if spec_push_ok(*state, direction) {
                let len = choose|len: int|
                    1 <= len <= state.config.max_push_chain && #[trigger] spec_chain_filled(
                        *state,
                        direction,
                        len,
                    ) && spec_move_ok_ignoring(
                        *state,
                        spec_step_target(*state, direction),
                        spec_push_ids(*state, direction, len).push(state.player_id),
                    ) && forall|k: int|
                        0 <= k < len ==> spec_entity_target_ok(
                            state.cube,
                            #[trigger] spec_push_dest(*state, direction, k),
                            spec_push_ids(*state, direction, len).push(state.player_id),
                        );
                lemma_chain_filled_unique(*state, direction, glen, len);
            }
        }
        return Err(ActionError::MoveBlocked(e));
    }
    let mut pushed: Vec<(EntityId, Position, Position)> = Vec::new();
    let m = chain.len();
    for k in 0..m
        invariant
            state.wf(),
            m == chain@.len(),
            1 <= m <= state.config.max_push_chain,
            spec_move_ok_ignoring(*state, player_to, ignored_ids@),
            player_to == spec_step_target(*state, direction),
            ignored_ids@ == chain@.map_values(|c: (EntityId, Position)| c.0).push(
                state.player_id,
            ),
            forall|k2: int|
                0 <= k2 < m ==> (#[trigger] chain@[k2]).1 == spec_chain_cell(
                    state.spec_player_position(),
                    direction,
                    k2,
                ),
            forall|k2: int|
                0 <= k2 < m ==> spec_has_pushable_at(
                    state.cube,
                    #[trigger] spec_chain_cell(state.spec_player_position(), direction, k2),
                ),
            forall|k2: int|
                0 <= k2 < m ==> spec_pushable_id_at(
                    state.cube,
                    (#[trigger] chain@[k2]).1,
                    chain@[k2].0,
                ),
            !spec_has_pushable_at(
                state.cube,
                spec_chain_cell(state.spec_player_position(), direction, m as int),
            ),
            glen == m as int,
            spec_chain_filled(*state, direction, glen),
            ignored_ids@ == spec_push_ids(*state, direction, glen).push(state.player_id),
            pushed@.len() == k,
            forall|k2: int|
                0 <= k2 < k ==> {
                    let mv = #[trigger] pushed@[k2];
                    let from = spec_chain_cell(state.spec_player_position(), direction, k2);
                    &&& mv.0 == chain@[k2].0
                    &&& mv.1 == from
                    &&& mv.2 == (Position {
                        x: (from.x + spec_delta(direction).0) as i32,
                        y: (from.y + spec_delta(direction).1) as i32,
                        t: (from.t + 1) as i32,
                    })
                    &&& spec_entity_target_ok(state.cube, mv.2, ignored_ids@)
                },
    {
        let (id, from) = chain[k];
        proof {
            // the chain cell lies in bounds, so its coordinates have room
            assert(spec_has_pushable_at(state.cube, chain@[k as int].1));
        }
        let to = Position::new(
            from.x + direction.delta().0,
            from.y + direction.delta().1,
            from.t + 1,
        );
        if validate_entity_target(&state.cube, to, &ignored_ids).is_err() {
            proof {
                assert(m as int <= state.config.max_push_chain);
                assert(to == spec_push_dest(*state, direction, k as int));
                assert(!spec_entity_target_ok(
                    state.cube,
                    to,
                    spec_push_ids(*state, direction, glen).push(state.player_id),
                ));
                if spec_push_ok(*state, direction) {
                    let len = choose|len: int|
                        1 <= len <= state.config.max_push_chain && #[trigger] spec_chain_filled(
                            *state,
                            direction,
                            len,
                        ) && spec_move_ok_ignoring(
                            *state,
                            spec_step_target(*state, direction),
                            spec_push_ids(*state, direction, len).push(state.player_id),
                        ) && forall|k3: int|
                            0 <= k3 < len ==> spec_entity_target_ok(
                                state.cube,
                                #[trigger] spec_push_dest(*state, direction, k3),
                                spec_push_ids(*state, direction, len).push(state.player_id),
                            );
                    lemma_chain_filled_unique(*state, direction, glen, len);
                }
            }
            return Err(ActionError::PushBlocked { blocked_at: to });
        }
        pushed.push((id, from, to));
    }
    proof {
        assert(pushed@.map_values(|mv: (EntityId, Position, Position)| mv.0) =~= chain@.map_values(
            |c: (EntityId, Position)| c.0,
        ));
        assert(pushed@.map_values(|mv: (EntityId, Position, Position)| mv.0).push(state.player_id)
            =~= ignored_ids@);
        assert forall|k2: int| 0 <= k2 < pushed@.len() implies state.cube.spec_has_entity_at(
            (#[trigger] pushed@[k2]).0,
            state.spec_player_position().t as int,
        ) by {
            assert(spec_pushable_id_at(state.cube, chain@[k2].1, chain@[k2].0));
            let cell = chain@[k2].1;
            let i = choose|i: int|
                {
                    &&& 0 <= i < state.cube.slices@[cell.t as int].abs_entities().len()
                    &&& crate::time_slice::at_cell(
                        state.cube.slices@[cell.t as int].abs_entities()[i],
                        SpatialPos { x: cell.x, y: cell.y },
                    )
                    &&& state.cube.slices@[cell.t as int].abs_entities()[i].is_pushable()
                    &&& state.cube.slices@[cell.t as int].abs_entities()[i].id == chain@[k2].0
                };
            assert(crate::time_slice::spec_has_id(
                state.cube.slices@[cell.t as int].abs_entities(),
                chain@[k2].0,
            ));
            assert(cell.t == state.spec_player_position().t);
        }
        assert forall|k: int| 0 <= k < glen implies pushed@[k] == spec_push_moves(
            *state,
            direction,
            glen,
        )[k] by {
            assert(chain@[k].0 == spec_first_pushable_id(state.cube, chain@[k].1));
            assert(chain@[k].1 == spec_chain_cell(state.spec_player_position(), direction, k));
            assert(pushed@[k].2 == spec_push_dest(*state, direction, k));
        }
        assert(pushed@ =~= spec_push_moves(*state, direction, glen));
        assert forall|k: int| 0 <= k < glen implies spec_entity_target_ok(
            state.cube,
            #[trigger] spec_push_dest(*state, direction, k),
            spec_push_ids(*state, direction, glen).push(state.player_id),
        ) by {
            assert(pushed@[k].1 == spec_chain_cell(state.spec_player_position(), direction, k));
            assert(pushed@[k].2 == spec_push_dest(*state, direction, k));
            assert(spec_entity_target_ok(state.cube, pushed@[k].2, ignored_ids@));
        }
        assert(spec_push_ok(*state, direction)) by {
            assert(1 <= glen <= state.config.max_push_chain && spec_chain_filled(
                *state,
                direction,
                glen,
            ) && spec_move_ok_ignoring(
                *state,
                spec_step_target(*state, direction),
                spec_push_ids(*state, direction, glen).push(state.player_id),
            ) && forall|k: int|
                0 <= k < glen ==> spec_entity_target_ok(
                    state.cube,
                    #[trigger] spec_push_dest(*state, direction, k),
                    spec_push_ids(*state, direction, glen).push(state.player_id),
                ));
        }
    }
    Ok(pushed)
}

/// Validate a pull: the cell behind the player must hold a pullable entity,
/// and both destinations must be clear in the next time slice.
pub fn validate_pull(state: &GameState, direction: Direction) -> (r: Result<
    (EntityId, Position, Position),
    ActionError,
>)
    requires
        state.wf(),
    ensures
        r is Ok <==> spec_pull_ok(*state, direction),
        r matches Err(e) ==> e is NothingToPull || e is NotPullable || e is MoveBlocked
            || e is PushBlocked,
        r matches Ok(p) ==> p.0 == spec_pull_occupants(*state, direction)[0].id && p.1
            == spec_pull_cell(*state, direction) && p.2 == spec_pull_dest(*state),
        r == Err::<(EntityId, Position, Position), ActionError>(
            ActionError::NothingToPull { direction },
        ) <==> !(state.cube.spec_in_bounds(spec_pull_cell(*state, direction))
            && spec_pull_occupants(*state, direction).len() > 0),
        r matches Err(e) ==> (e matches ActionError::NotPullable { entity_id } ==> entity_id
            == spec_pull_occupants(*state, direction)[0].id && !spec_pull_occupants(
            *state,
            direction,
        )[0].is_pullable()),
        r matches Err(e) ==> (e matches ActionError::MoveBlocked(me)
            ==> !spec_move_ok_ignoring(
            *state,
            spec_step_target(*state, direction),
            seq![spec_pull_occupants(*state, direction)[0].id, state.player_id],
        )),
        r matches Err(e) ==> (e matches ActionError::PushBlocked { blocked_at } ==> blocked_at
            == spec_pull_dest(*state) && !spec_entity_target_ok(
            state.cube,
            blocked_at,
            seq![spec_pull_occupants(*state, direction)[0].id, state.player_id],
        )),
{
    let current = state.player_position();
    let pull_pos = current.move_dir(direction.opposite());
    proof {
        assert(pull_pos == spec_pull_cell(*state, direction));
    }
    let entities = state.cube.entities_at(pull_pos);
    if entities.len() == 0 {
        proof {
            if state.cube.spec_in_bounds(pull_pos) {
                assert(entities@.map_values(|e: &Entity| e@).len() == 0);
            }
        }
        return Err(ActionError::NothingToPull { direction });
    }
    proof {
        assert(state.cube.spec_in_bounds(pull_pos));
        assert(entities@.map_values(|e: &Entity| e@).len() > 0);
        assert(entities@.map_values(|e: &Entity| e@)[0] == entities@[0]@);
    }
    let pull_entity: &Entity = entities[0];
    let pulled_id = pull_entity.id;
    proof {
        assert(pull_entity@ == spec_pull_occupants(*state, direction)[0]);
    }
    if !pull_entity.is_pullable() {
        return Err(ActionError::NotPullable { entity_id: pulled_id });
    }
    let player_to = current.step(direction);
    let mut ignored_ids: Vec<EntityId> = Vec::new();
    ignored_ids.push(pulled_id);
    ignored_ids.push(state.player_id);
    proof {
        assert(ignored_ids@ =~= seq![pulled_id, state.player_id]);
    }
    if let Err(e) = validate_player_move_with_ignores(state, player_to, &ignored_ids) {
        return Err(ActionError::MoveBlocked(e));
    }
    let box_to = Position::new(current.x, current.y, current.t + 1);
    proof {
        assert(box_to == spec_pull_dest(*state));
    }
    if validate_entity_target(&state.cube, box_to, &ignored_ids).is_err() {
        return Err(ActionError::PushBlocked { blocked_at: box_to });
    }
    Ok((pulled_id, pull_pos, box_to))
}

/// The opposite of a direction (spec mirror of `Direction::opposite`).
pub open spec fn spec_opposite_dir(d: Direction) -> Direction {
    crate::position::spec_opposite(d)
}

/// The entry records a legal directional move.
pub open spec fn spec_move_entry(s: GameState, e: (Position, Action)) -> bool {
    exists|d: Direction|
        e == ((#[trigger] spec_step_target(s, d), Action::Move(d))) && spec_move_ok(
            s,
            spec_step_target(s, d),
        )
}

/// The position is a legal directional-move target.
pub open spec fn spec_move_target_pos(s: GameState, p: Position) -> bool {
    exists|d: Direction|
        p == #[trigger] spec_step_target(s, d) && spec_move_ok(s, spec_step_target(s, d))
}

/// Find all positions reachable in one action from the current state, with
/// the action that reaches each: one entry per legal move, plus the wait
/// and the rift jump where legal.
pub fn find_reachable_positions(state: &GameState) -> (r: Vec<(Position, Action)>)
    requires
        state.wf(),
    ensures
        forall|d: Direction|
            spec_move_ok(*state, spec_step_target(*state, d)) <==> r@.contains(
                ((spec_step_target(*state, d), Action::Move(d))),
            ),
        spec_move_ok(*state, spec_wait_target(*state)) <==> r@.contains(
            ((spec_wait_target(*state), Action::Wait)),
        ),
        spec_rift_ok(*state) <==> r@.contains(((spec_rift_target_of(*state), Action::UseRift))),
        forall|k: int|
            0 <= k < r@.len() ==> {
                ||| spec_move_entry(*state, #[trigger] r@[k])
                ||| r@[k] == ((spec_wait_target(*state), Action::Wait)) && spec_move_ok(
                    *state,
                    spec_wait_target(*state),
                )
                ||| r@[k] == ((spec_rift_target_of(*state), Action::UseRift)) && spec_rift_ok(
                    *state,
                )
            },
{
    let mut out: Vec<(Position, Action)> = Vec::new();
    let dirs = Direction::all();
    let ghost dirseq = seq![
        Direction::North,
        Direction::South,
        Direction::East,
        Direction::West,
    ];
    let mut di: usize = 0;
    while di < 4
        invariant
            state.wf(),
            di <= 4,
            dirs@ == dirseq,
            forall|j: int|
                0 <= j < di ==> (spec_move_ok(*state, spec_step_target(*state, dirseq[j])) <==> out@.contains(
                    ((spec_step_target(*state, dirseq[j]), Action::Move(dirseq[j]))),
                )),
            forall|k: int| 0 <= k < out@.len() ==> spec_move_entry(*state, #[trigger] out@[k]),
        decreases 4 - di,
    {
        let d = dirs[di];
        let ghost pre = out@;
        match validate_directional_move(state, d) {
            Ok(target) => {
                out.push((target, Action::Move(d)));
                proof {
                    assert(out@[pre.len() as int] == ((
                        spec_step_target(*state, dirseq[di as int]),
                        Action::Move(dirseq[di as int]),
                    )));
                    assert(spec_move_entry(*state, out@[pre.len() as int]));
                    assert forall|j: int|
                        0 <= j < di + 1 implies (spec_move_ok(
                        *state,
                        spec_step_target(*state, dirseq[j]),
                    ) <==> out@.contains(
                        ((spec_step_target(*state, dirseq[j]), Action::Move(dirseq[j]))),
                    )) by {
                        if j < di {
                            if pre.contains(
                                ((spec_step_target(*state, dirseq[j]), Action::Move(dirseq[j]))),
                            ) {
                                let w = choose|w: int|
                                    0 <= w < pre.len() && pre[w] == ((
                                        spec_step_target(*state, dirseq[j]),
                                        Action::Move(dirseq[j]),
                                    ));
                                assert(out@[w] == pre[w]);
                            }
                            if out@.contains(
                                ((spec_step_target(*state, dirseq[j]), Action::Move(dirseq[j]))),
                            ) {
                                let w = choose|w: int|
                                    0 <= w < out@.len() && out@[w] == ((
                                        spec_step_target(*state, dirseq[j]),
                                        Action::Move(dirseq[j]),
                                    ));
                                if w < pre.len() {
                                    assert(pre[w] == out@[w]);
                                }
                            }
                        }
                    }
                }
            },
            Err(_) => {
                proof {
                    assert forall|j: int|
                        0 <= j < di + 1 implies (spec_move_ok(
                        *state,
                        spec_step_target(*state, dirseq[j]),
                    ) <==> out@.contains(
                        ((spec_step_target(*state, dirseq[j]), Action::Move(dirseq[j]))),
                    )) by {
                        if j == di {
                            if out@.contains(
                                ((spec_step_target(*state, dirseq[j]), Action::Move(dirseq[j]))),
                            ) {
                                let w = choose|w: int|
                                    0 <= w < out@.len() && out@[w] == ((
                                        spec_step_target(*state, dirseq[j]),
                                        Action::Move(dirseq[j]),
                                    ));
                                assert(spec_move_entry(*state, out@[w]));
                                let d2 = choose|d2: Direction|
                                    out@[w] == ((
                                        #[trigger] spec_step_target(*state, d2),
                                        Action::Move(d2),
                                    )) && spec_move_ok(*state, spec_step_target(*state, d2));
                                assert(d2 == dirseq[j]);
                            }
                        }
                    }
                }
            },
        }
        di = di + 1;
    }
    let ghost before_wait = out@;
    match validate_wait(state) {
        Ok(target) => {
            out.push((target, Action::Wait));
            proof {
                assert(out@[before_wait.len() as int] == ((
                    spec_wait_target(*state),
                    Action::Wait,
                )));
                lemma_push_keeps_move_entries(*state, before_wait, out@, dirseq);
            }
        },
        Err(_) => {
            proof {
                if out@.contains(((spec_wait_target(*state), Action::Wait))) {
                    let w = choose|w: int|
                        0 <= w < out@.len() && out@[w] == ((spec_wait_target(*state), Action::Wait));
                    assert(spec_move_entry(*state, out@[w]));
                    let d2 = choose|d2: Direction|
                        out@[w] == ((#[trigger] spec_step_target(*state, d2), Action::Move(d2)))
                            && spec_move_ok(*state, spec_step_target(*state, d2));
                    assert(false);
                }
            }
        },
    }
    let ghost before_rift = out@;
    match validate_rift(state) {
        Ok(target) => {
            out.push((target, Action::UseRift));
            proof {
                lemma_push_keeps_move_entries(*state, before_rift, out@, dirseq);
                lemma_push_keeps_wait_entry(*state, before_rift, out@);
                assert(out@[before_rift.len() as int] == ((
                    spec_rift_target_of(*state),
                    Action::UseRift,
                )));
                assert(out@.contains(((spec_rift_target_of(*state), Action::UseRift))));
            }
        },
        Err(_) => {
            proof {
                if out@.contains(((spec_rift_target_of(*state), Action::UseRift))) {
                    let w = choose|w: int|
                        0 <= w < out@.len() && out@[w] == ((
                            spec_rift_target_of(*state),
                            Action::UseRift,
                        ));
                    if w < before_wait.len() {
                        assert(spec_move_entry(*state, out@[w]));
                        let d2 = choose|d2: Direction|
                            out@[w] == ((
                                #[trigger] spec_step_target(*state, d2),
                                Action::Move(d2),
                            )) && spec_move_ok(*state, spec_step_target(*state, d2));
                        assert(false);
                    } else {
                        assert(out@[w] == ((spec_wait_target(*state), Action::Wait)));
                        assert(false);
                    }
                }
            }
        },
    }
    proof {
        assert forall|k: int| 0 <= k < out@.len() implies {
            ||| spec_move_entry(*state, #[trigger] out@[k])
            ||| out@[k] == ((spec_wait_target(*state), Action::Wait)) && spec_move_ok(
                *state,
                spec_wait_target(*state),
            )
            ||| out@[k] == ((spec_rift_target_of(*state), Action::UseRift)) && spec_rift_ok(
                *state,
            )
        } by {
            if k < before_wait.len() {
                assert(out@[k] == before_wait[k]);
                assert(spec_move_entry(*state, before_wait[k]));
            } else if k < before_rift.len() {
                assert(out@[k] == before_rift[k]);
            }
        }
    }
    out
}

/// Appending a non-Move entry changes no Move membership./// Appending a non-Move entry changes no Move membership.
proof fn lemma_push_keeps_move_entries(
    s: GameState,
    pre: Seq<(Position, Action)>,
    post: Seq<(Position, Action)>,
    dirseq: Seq<Direction>,
)
    requires
        post.len() == pre.len() + 1,
        forall|w: int| 0 <= w < pre.len() ==> post[w] == pre[w],
        !(post.last().1 matches Action::Move(_)),
        dirseq.len() == 4,
        forall|j: int|
            0 <= j < 4 ==> (spec_move_ok(s, spec_step_target(s, dirseq[j])) <==> pre.contains(
                ((spec_step_target(s, dirseq[j]), Action::Move(dirseq[j]))),
            )),
    ensures
        forall|j: int|
            0 <= j < 4 ==> (spec_move_ok(s, spec_step_target(s, dirseq[j])) <==> post.contains(
                ((spec_step_target(s, dirseq[j]), Action::Move(dirseq[j]))),
            )),
{
    assert forall|j: int| 0 <= j < 4 implies (spec_move_ok(s, spec_step_target(s, dirseq[j]))
        <==> post.contains(((spec_step_target(s, dirseq[j]), Action::Move(dirseq[j]))))) by {
        if pre.contains(((spec_step_target(s, dirseq[j]), Action::Move(dirseq[j])))) {
            let w = choose|w: int|
                0 <= w < pre.len() && pre[w] == ((
                    spec_step_target(s, dirseq[j]),
                    Action::Move(dirseq[j]),
                ));
            assert(post[w] == pre[w]);
        }
        if post.contains(((spec_step_target(s, dirseq[j]), Action::Move(dirseq[j])))) {
            let w = choose|w: int|
                0 <= w < post.len() && post[w] == ((
                    spec_step_target(s, dirseq[j]),
                    Action::Move(dirseq[j]),
                ));
            if w < pre.len() {
                assert(pre[w] == post[w]);
            }
        }
    }
}

/// Appending a non-Wait entry changes no Wait membership.
proof fn lemma_push_keeps_wait_entry(
    s: GameState,
    pre: Seq<(Position, Action)>,
    post: Seq<(Position, Action)>,
)
    requires
        post.len() == pre.len() + 1,
        forall|w: int| 0 <= w < pre.len() ==> post[w] == pre[w],
        !(post.last().1 is Wait),
        spec_move_ok(s, spec_wait_target(s)) <==> pre.contains(
            ((spec_wait_target(s), Action::Wait)),
        ),
    ensures
        spec_move_ok(s, spec_wait_target(s)) <==> post.contains(
            ((spec_wait_target(s), Action::Wait)),
        ),
{
    if pre.contains(((spec_wait_target(s), Action::Wait))) {
        let w = choose|w: int|
            0 <= w < pre.len() && pre[w] == ((spec_wait_target(s), Action::Wait));
        assert(post[w] == pre[w]);
    }
    if post.contains(((spec_wait_target(s), Action::Wait))) {
        let w = choose|w: int|
            0 <= w < post.len() && post[w] == ((spec_wait_target(s), Action::Wait));
        if w < pre.len() {
            assert(pre[w] == post[w]);
        }
    }
}

} // verus!
