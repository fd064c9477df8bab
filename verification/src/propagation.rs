//! Causal propagation engine: keeps every time-persistent entity's presence
//! consistent across all time slices after it is created or moved.

use vstd::prelude::*;
use vstd::pervasive::VecAdditionalExecFns;

use crate::components::EntityId;
use crate::entity::{abs_has_patrol, lemma_patrol_unique, AbsEntity, Entity};
use crate::components::spec_patrol_position_at;
use crate::position::Position;
use crate::time_cube::{
    abs_at_time, lemma_cube_validity_preserved, slice_consistent, spec_cube_entities_valid,
    CubeError, TimeCube,
};
use crate::time_slice::TimeSlice;

verus! {

/// Context for a propagation operation.
#[derive(Debug)]
pub struct PropagationContext {
    /// Earliest time slice that changed.
    pub dirty_from: i32,
    /// The entity IDs that were considered for propagation.
    pub affected_entities: Vec<EntityId>,
    /// Number of slices actually re-propagated.
    pub slices_updated: usize,
}

/// Result of a propagation operation.
#[derive(Debug)]
pub struct PropagationResult {
    /// Context with details of what was propagated.
    pub context: PropagationContext,
    /// Any non-fatal issues encountered.
    pub warnings: Vec<PropagationWarning>,
}

/// Non-fatal issues during propagation.
#[derive(Debug, Clone, Copy, PartialEq, Eq, Structural)]
pub enum PropagationWarning {
    /// Entity collision during propagation (movement-blocking overlap).
    EntityCollision {
        /// First entity.
        entity_a: EntityId,
        /// Second entity.
        entity_b: EntityId,
        /// Position of collision.
        at: Position,
    },
    /// Entity propagated out of bounds (clipped).
    OutOfBounds {
        /// Entity id.
        entity_id: EntityId,
        /// Attempted position.
        attempted: Position,
    },
}

/// Options for propagation behavior.
#[derive(Debug)]
pub struct PropagationOptions {
    /// Only propagate specific entities (None = all time-persistent).
    pub only_entities: Option<Vec<EntityId>>,
    /// Stop propagation at this time (None = propagate to end).
    pub stop_at: Option<i32>,
    /// Skip entities that would collide (vs. still adding them).
    pub skip_collisions: bool,
}

impl Default for PropagationOptions {
    /// The default: propagate every persistent entity to the cube's end and
    /// still write colliding entities.
    fn default() -> (r: Self)
        ensures
            r.only_entities is None,
            r.stop_at is None,
            r.skip_collisions == false,
    {
        Self { only_entities: None, stop_at: None, skip_collisions: false }
    }
}

/// The entity is selected by the option's filter.
pub open spec fn spec_selected(only: Option<Seq<EntityId>>, id: EntityId) -> bool {
    match only {
        None => true,
        Some(v) => v.contains(id),
    }
}

/// The option's filter as a mathematical value.
pub open spec fn spec_only(only: Option<Vec<EntityId>>) -> Option<Seq<EntityId>> {
    match only {
        None => None,
        Some(v) => Some(v@),
    }
}

/// The entity is carried forward by propagation: it is time-persistent and
/// not the player (the player's presence is governed by the world line).
pub open spec fn spec_source_entity(e: AbsEntity) -> bool {
    e.is_time_persistent() && !e.is_player()
}

/// The source slice holds a selected, propagating entity under this id.
pub open spec fn spec_propagates_id(src: TimeSlice, only: Option<Seq<EntityId>>, id: EntityId) -> bool {
    src.spec_has_entity(id) && spec_source_entity(src.spec_entity(id)->Some_0) && spec_selected(
        only,
        id,
    )
}

/// The instance of a source entity in the slice at time `target`: a patrol
/// stands at its deterministic waypoint, anything else keeps its cell.
pub open spec fn spec_propagated(e: AbsEntity, target: int) -> AbsEntity {
    if abs_has_patrol(e.components) {
        let p = spec_patrol_position_at(e.patrol_data(), target);
        AbsEntity { position: (Position { x: p.x, y: p.y, t: target as i32 }), ..e }
    } else {
        abs_at_time(e, target)
    }
}

/// Two distinct propagating entities collide at the target time: both
/// instances are in bounds, block movement, and share a cell; `id1` comes
/// first in source-slice order.
pub open spec fn spec_blocking_clash(
    src: TimeSlice,
    only: Option<Seq<EntityId>>,
    oldc: TimeCube,
    id1: EntityId,
    id2: EntityId,
    u: int,
) -> bool {
    &&& id1 != id2
    &&& spec_propagates_id(src, only, id1)
    &&& spec_propagates_id(src, only, id2)
    &&& crate::time_slice::spec_index_of_id(src.abs_entities(), id1)
        < crate::time_slice::spec_index_of_id(src.abs_entities(), id2)
    &&& oldc.spec_in_bounds(spec_propagated(src.spec_entity(id1)->Some_0, u).position)
    &&& oldc.spec_in_bounds(spec_propagated(src.spec_entity(id2)->Some_0, u).position)
    &&& spec_propagated(src.spec_entity(id1)->Some_0, u).position == spec_propagated(
        src.spec_entity(id2)->Some_0,
        u,
    ).position
    &&& spec_propagated(src.spec_entity(id1)->Some_0, u).blocks_movement()
    &&& spec_propagated(src.spec_entity(id2)->Some_0, u).blocks_movement()
}

/// The last slice propagation writes to: the requested stop, clipped to the
/// cube's end.
pub open spec fn spec_stop(stop_at: Option<i32>, depth: i32) -> int {
    let s: int = match stop_at {
        Some(v) => v as int,
        None => depth - 1,
    };
    if s < depth - 1 {
        s
    } else {
        depth - 1
    }
}

/// After propagation from `src` over the selected ids, the slice at time
/// `u` maps every propagating id with an in-bounds instance to that
/// instance, and every other id to what it held before.
pub open spec fn spec_slice_propagated(
    oldc: TimeCube,
    news: TimeSlice,
    src: TimeSlice,
    only: Option<Seq<EntityId>>,
    u: int,
) -> bool {
    forall|id: EntityId|
        {
            let prop = spec_propagated(src.spec_entity(id)->Some_0, u);
            if spec_propagates_id(src, only, id) && oldc.spec_in_bounds(prop.position) {
                #[trigger] news.spec_entity(id) == Some(prop)
            } else {
                news.spec_entity(id) == oldc.slices@[u].spec_entity(id)
            }
        }
}

/// Determine how an entity should be propagated to a target time slice.
/// The player and non-persistent entities are never propagated.
pub fn compute_propagated_entity(entity: &Entity, target_t: i32) -> (r: Option<Entity>)
    requires
        entity@.valid(),
        target_t >= 0,
    ensures
        r is Some <==> spec_source_entity(entity@),
        r matches Some(e) ==> e@ == spec_propagated(entity@, target_t as int),
{
    if !entity.is_time_persistent() || entity.is_player() {
        return None;
    }
    let mut propagated = entity.at_time(target_t);
    if let Some(patrol) = entity.patrol_data() {
        proof {
            lemma_patrol_unique(entity@, patrol@);
        }
        let new_spatial = patrol.position_at(target_t);
        propagated = propagated.at_position(
            Position::new(new_spatial.x, new_spatial.y, target_t),
        );
    }
    Some(propagated)
}

/// Check if two entities would collide at the same position: both block
/// movement and stand on the same space-time cell.
pub fn would_collide(a: &Entity, b: &Entity) -> (r: bool)
    ensures
        r == (a@.blocks_movement() && b@.blocks_movement() && a.position == b.position),
{
    a.blocks_movement() && b.blocks_movement() && a.position.same_spacetime(&b.position)
}

/// Propagate all time-persistent entities from time `from_t` to all future
/// slices.
pub fn propagate_from(cube: &mut TimeCube, from_t: i32) -> (r: Result<
    PropagationResult,
    CubeError,
>)
    requires
        old(cube).wf(),
        spec_cube_entities_valid(*old(cube)),
    ensures
        final(cube).wf(),
        spec_cube_entities_valid(*final(cube)),
        final(cube).width == old(cube).width,
        final(cube).height == old(cube).height,
        final(cube).time_depth == old(cube).time_depth,
        final(cube).slices@.len() == old(cube).slices@.len(),
        !(0 <= from_t < old(cube).slices@.len()) ==> r is Err && r->Err_0
            == CubeError::TimeSliceNotFound(from_t) && final(cube).slices@ == old(cube).slices@,
        0 <= from_t < old(cube).slices@.len() ==> {
            let stop = spec_stop(None, old(cube).time_depth);
            let src = old(cube).slices@[from_t as int];
            &&& r is Ok
            &&& forall|u: int|
                0 <= u < old(cube).slices@.len() && !(from_t < u <= stop) ==> final(cube).slices@[u] == old(cube).slices@[u]
            &&& forall|u: int|
                from_t < u <= stop ==> spec_slice_propagated(
                    *old(cube),
                    #[trigger] final(cube).slices@[u],
                    src,
                    None,
                    u,
                )
        },
{
    propagate_from_with_options(cube, from_t, PropagationOptions::default())
}

/// Propagate with custom options.
#[verifier::rlimit(100)]
pub fn propagate_from_with_options(
    cube: &mut TimeCube,
    from_t: i32,
    options: PropagationOptions,
) -> (r: Result<PropagationResult, CubeError>)
    requires
        old(cube).wf(),
        spec_cube_entities_valid(*old(cube)),
    ensures
        final(cube).wf(),
        spec_cube_entities_valid(*final(cube)),
        final(cube).width == old(cube).width,
        final(cube).height == old(cube).height,
        final(cube).time_depth == old(cube).time_depth,
        final(cube).slices@.len() == old(cube).slices@.len(),
        !(0 <= from_t < old(cube).slices@.len()) ==> r is Err && r->Err_0
            == CubeError::TimeSliceNotFound(from_t) && final(cube).slices@ == old(cube).slices@,
        0 <= from_t < old(cube).slices@.len() ==> {
            let stop = spec_stop(options.stop_at, old(cube).time_depth);
            let src = old(cube).slices@[from_t as int];
            &&& r is Ok
            &&& forall|u: int|
                0 <= u < old(cube).slices@.len() && !(from_t < u <= stop) ==> final(cube).slices@[u] == old(cube).slices@[u]
            &&& (!options.skip_collisions ==> forall|u: int|
                from_t < u <= stop ==> spec_slice_propagated(
                    *old(cube),
                    final(cube).slices@[u],
                    src,
                    spec_only(options.only_entities),
                    u,
                ))
            &&& (options.skip_collisions ==> forall|u: int, id: EntityId|
                from_t < u <= stop ==> {
                    ||| #[trigger] final(cube).slices@[u].spec_entity(id) == old(
                        cube,
                    ).slices@[u].spec_entity(id)
                    ||| final(cube).slices@[u].spec_entity(id) == Some(
                        spec_propagated(src.spec_entity(id)->Some_0, u),
                    ) && spec_propagates_id(src, spec_only(options.only_entities), id)
                })
            &&& r->Ok_0.context.dirty_from == from_t
            &&& forall|id: EntityId| #[trigger]
                r->Ok_0.context.affected_entities@.contains(id) <==> spec_propagates_id(
                    src,
                    spec_only(options.only_entities),
                    id,
                )
            &&& r->Ok_0.context.slices_updated as int <= (if stop >= from_t {
                stop - from_t
            } else {
                0int
            })
            &&& forall|u: int, id: EntityId|
                #![trigger spec_propagated(src.spec_entity(id)->Some_0, u)]
                from_t < u <= stop && spec_propagates_id(src, spec_only(options.only_entities), id)
                    && !old(cube).spec_in_bounds(
                    spec_propagated(src.spec_entity(id)->Some_0, u).position,
                ) ==> r->Ok_0.warnings@.contains(
                    PropagationWarning::OutOfBounds {
                        entity_id: id,
                        attempted: spec_propagated(src.spec_entity(id)->Some_0, u).position,
                    },
                )
            &&& (!options.skip_collisions ==> forall|u: int, id1: EntityId, id2: EntityId|
                #![trigger spec_blocking_clash(src, spec_only(options.only_entities), *old(cube), id1, id2, u)]
                from_t < u <= stop && spec_blocking_clash(
                    src,
                    spec_only(options.only_entities),
                    *old(cube),
                    id1,
                    id2,
                    u,
                ) ==> r->Ok_0.warnings@.contains(
                    PropagationWarning::EntityCollision {
                        entity_a: id1,
                        entity_b: id2,
                        at: spec_propagated(src.spec_entity(id2)->Some_0, u).position,
                    },
                ))
        },
{
    if from_t < 0 || from_t as usize >= cube.slices.len() {
        return Err(CubeError::TimeSliceNotFound(from_t));
    }
    let ghost old_cube = *cube;
    let ghost src = cube.slices@[from_t as int];
    let ghost onlyg = spec_only(options.only_entities);
    let depth = cube.time_depth;
    let stop: i32 = match options.stop_at {
        Some(v) => if v < depth - 1 {
            v
        } else {
            depth - 1
        },
        None => depth - 1,
    };
    let src_idx = from_t as usize;
    proof {
        assert(slice_consistent(cube.slices@[from_t as int], from_t as int, cube.width, cube.height));
    }

    let (sources, affected) = collect_sources(&cube.slices[src_idx], &options, Ghost(src), Ghost(onlyg));

    let mut warnings: Vec<PropagationWarning> = Vec::new();
    let mut slices_updated: usize = 0;
    let count: usize = if stop > from_t {
        (stop - from_t) as usize
    } else {
        0
    };
    let mut target_t: i32 = from_t + 1;
    for step in 0..count
        invariant
            count == (if stop > from_t {
                stop - from_t
            } else {
                0
            }),
            target_t as int == from_t + 1 + step,
            old_cube == *old(cube),
            old_cube.wf(),
            spec_cube_entities_valid(old_cube),
            src == old_cube.slices@[from_t as int],
            0 <= from_t < old_cube.slices@.len(),
            from_t < target_t,
            stop as int == spec_stop(options.stop_at, old_cube.time_depth),
            stop < old_cube.time_depth,
            onlyg == spec_only(options.only_entities),
            cube.width == old_cube.width,
            cube.height == old_cube.height,
            cube.time_depth == old_cube.time_depth,
            cube.slices@.len() == old_cube.slices@.len(),
            forall|k: int|
                0 <= k < cube.slices@.len() ==> slice_consistent(
                    #[trigger] cube.slices@[k],
                    k,
                    cube.width,
                    cube.height,
                ),
            spec_cube_entities_valid(*cube),
            forall|u: int|
                0 <= u < old_cube.slices@.len() && !(from_t < u < target_t) ==> cube.slices@[u]
                    == old_cube.slices@[u],
            !options.skip_collisions ==> forall|u: int|
                from_t < u < target_t ==> spec_slice_propagated(
                    old_cube,
                    #[trigger] cube.slices@[u],
                    src,
                    onlyg,
                    u,
                ),
            options.skip_collisions ==> forall|u: int, id: EntityId|
                from_t < u < target_t ==> {
                    ||| #[trigger] cube.slices@[u].spec_entity(id) == old_cube.slices@[u].spec_entity(
                        id,
                    )
                    ||| cube.slices@[u].spec_entity(id) == Some(
                        spec_propagated(src.spec_entity(id)->Some_0, u),
                    ) && spec_propagates_id(src, onlyg, id)
                },
            sources@.len() == affected@.len(),
            forall|k: int| 0 <= k < sources@.len() ==> affected@[k] == (#[trigger] sources@[k])@.id,
            forall|k: int|
                0 <= k < sources@.len() ==> src.spec_entity((#[trigger] sources@[k])@.id) == Some(
                    sources@[k]@,
                ),
            forall|k: int|
                0 <= k < sources@.len() ==> spec_propagates_id(
                    src,
                    onlyg,
                    (#[trigger] sources@[k])@.id,
                ),
            forall|id: EntityId| #[trigger]
                affected@.contains(id) <==> spec_propagates_id(src, onlyg, id),
            forall|id: EntityId|
                spec_propagates_id(src, onlyg, id) ==> exists|k: int|
                    0 <= k < sources@.len() && (#[trigger] sources@[k])@.id == id,
            forall|a: int, b: int|
                0 <= a < b < sources@.len() ==> (#[trigger] sources@[a])@.id != (
                #[trigger] sources@[b])@.id,
            forall|a: int, b: int|
                0 <= a < b < sources@.len() ==> crate::time_slice::spec_index_of_id(
                    src.abs_entities(),
                    (#[trigger] sources@[a])@.id,
                ) < crate::time_slice::spec_index_of_id(
                    src.abs_entities(),
                    (#[trigger] sources@[b])@.id,
                ),
            slices_updated as int <= step,
            forall|u: int, id: EntityId|
                #![trigger spec_propagated(src.spec_entity(id)->Some_0, u)]
                from_t < u < target_t && spec_propagates_id(src, onlyg, id)
                    && !old_cube.spec_in_bounds(
                    spec_propagated(src.spec_entity(id)->Some_0, u).position,
                ) ==> warnings@.contains(
                    PropagationWarning::OutOfBounds {
                        entity_id: id,
                        attempted: spec_propagated(src.spec_entity(id)->Some_0, u).position,
                    },
                ),
            !options.skip_collisions ==> forall|u: int, id1: EntityId, id2: EntityId|
                #![trigger spec_blocking_clash(src, onlyg, old_cube, id1, id2, u)]
                from_t < u < target_t && spec_blocking_clash(src, onlyg, old_cube, id1, id2, u)
                    ==> warnings@.contains(
                    PropagationWarning::EntityCollision {
                        entity_a: id1,
                        entity_b: id2,
                        at: spec_propagated(src.spec_entity(id2)->Some_0, u).position,
                    },
                ),
    {
        let ghost pre_warnings = warnings@;
        let ghost pre_updated = slices_updated;
        propagate_into_slice(
            cube,
            &sources,
            target_t,
            options.skip_collisions,
            &mut warnings,
            &mut slices_updated,
            Ghost(old_cube),
            Ghost(src),
            Ghost(onlyg),
            Ghost(from_t as int),
        );
        proof {
            assert forall|u: int, id: EntityId|
                #![trigger spec_propagated(src.spec_entity(id)->Some_0, u)]
                from_t < u < target_t + 1 && spec_propagates_id(src, onlyg, id)
                    && !old_cube.spec_in_bounds(
                    spec_propagated(src.spec_entity(id)->Some_0, u).position,
                ) implies warnings@.contains(
                PropagationWarning::OutOfBounds {
                    entity_id: id,
                    attempted: spec_propagated(src.spec_entity(id)->Some_0, u).position,
                },
            ) by {
                if u < target_t {
                    let ww = choose|ww: int|
                        0 <= ww < pre_warnings.len() && pre_warnings[ww]
                            == PropagationWarning::OutOfBounds {
                            entity_id: id,
                            attempted: spec_propagated(src.spec_entity(id)->Some_0, u).position,
                        };
                    assert(warnings@[ww] == pre_warnings[ww]);
                }
            }
            if !options.skip_collisions {
                assert forall|u: int, id1: EntityId, id2: EntityId|
                    #![trigger spec_blocking_clash(src, onlyg, old_cube, id1, id2, u)]
                    from_t < u < target_t + 1 && spec_blocking_clash(
                        src,
                        onlyg,
                        old_cube,
                        id1,
                        id2,
                        u,
                    ) implies warnings@.contains(
                    PropagationWarning::EntityCollision {
                        entity_a: id1,
                        entity_b: id2,
                        at: spec_propagated(src.spec_entity(id2)->Some_0, u).position,
                    },
                ) by {
                    if u < target_t {
                        let ww = choose|ww: int|
                            0 <= ww < pre_warnings.len() && pre_warnings[ww]
                                == PropagationWarning::EntityCollision {
                                entity_a: id1,
                                entity_b: id2,
                                at: spec_propagated(src.spec_entity(id2)->Some_0, u).position,
                            };
                        assert(warnings@[ww] == pre_warnings[ww]);
                    }
                }
            }
        }
        target_t = target_t + 1;
    }
    Ok(
        PropagationResult {
            context: PropagationContext {
                dirty_from: from_t,
                affected_entities: affected,
                slices_updated,
            },
            warnings,
        },
    )
}

/// Collect the selected, propagating entities of the source slice, in slice
/// order, together with their identifiers.
#[verifier::rlimit(100)]
fn collect_sources(
    slice: &TimeSlice,
    options: &PropagationOptions,
    Ghost(src): Ghost<TimeSlice>,
    Ghost(onlyg): Ghost<Option<Seq<EntityId>>>,
) -> (r: (Vec<Entity>, Vec<EntityId>))
    requires
        *slice == src,
        src.wf(),
        onlyg == spec_only(options.only_entities),
    ensures
        r.0@.len() == r.1@.len(),
        forall|k: int| 0 <= k < r.0@.len() ==> r.1@[k] == (#[trigger] r.0@[k])@.id,
        forall|k: int|
            0 <= k < r.0@.len() ==> src.spec_entity((#[trigger] r.0@[k])@.id) == Some(r.0@[k]@),
        forall|k: int|
            0 <= k < r.0@.len() ==> spec_propagates_id(src, onlyg, (#[trigger] r.0@[k])@.id),
        forall|id: EntityId| #[trigger] r.1@.contains(id) <==> spec_propagates_id(src, onlyg, id),
        forall|id: EntityId|
            spec_propagates_id(src, onlyg, id) ==> exists|k: int|
                0 <= k < r.0@.len() && (#[trigger] r.0@[k])@.id == id,
        forall|a: int, b: int|
            0 <= a < b < r.0@.len() ==> (#[trigger] r.0@[a])@.id != (#[trigger] r.0@[b])@.id,
        forall|a: int, b: int|
            0 <= a < b < r.0@.len() ==> crate::time_slice::spec_index_of_id(
                src.abs_entities(),
                (#[trigger] r.0@[a])@.id,
            ) < crate::time_slice::spec_index_of_id(
                src.abs_entities(),
                (#[trigger] r.0@[b])@.id,
            ),
{
    let mut sources: Vec<Entity> = Vec::new();
    let mut affected: Vec<EntityId> = Vec::new();
    let n = slice.entities.len();
    for i in 0..n
        invariant
            *slice == src,
            src.wf(),
            onlyg == spec_only(options.only_entities),
            n == src.abs_entities().len(),
            n == slice.entities@.len(),
            sources@.len() == affected@.len(),
            forall|k: int| 0 <= k < sources@.len() ==> affected@[k] == (#[trigger] sources@[k])@.id,
            forall|k: int|
                0 <= k < sources@.len() ==> src.spec_entity((#[trigger] sources@[k])@.id) == Some(
                    sources@[k]@,
                ) && spec_source_entity(sources@[k]@) && spec_selected(
                    onlyg,
                    sources@[k]@.id,
                ),
            forall|j: int|
                0 <= j < i && spec_source_entity(#[trigger] src.abs_entities()[j]) && spec_selected(
                    onlyg,
                    src.abs_entities()[j].id,
                ) ==> affected@.contains(src.abs_entities()[j].id),
            forall|a: int|
                0 <= a < sources@.len() ==> exists|j: int|
                    0 <= j < i && src.abs_entities()[j].id == (#[trigger] sources@[a])@.id,
            forall|a: int, b: int|
                0 <= a < b < sources@.len() ==> (#[trigger] sources@[a])@.id != (
                #[trigger] sources@[b])@.id,
            forall|a: int|
                0 <= a < sources@.len() ==> crate::time_slice::spec_index_of_id(
                    src.abs_entities(),
                    (#[trigger] sources@[a])@.id,
                ) < i,
            forall|a: int, b: int|
                0 <= a < b < sources@.len() ==> crate::time_slice::spec_index_of_id(
                    src.abs_entities(),
                    (#[trigger] sources@[a])@.id,
                ) < crate::time_slice::spec_index_of_id(
                    src.abs_entities(),
                    (#[trigger] sources@[b])@.id,
                ),
    {
        let ghost pre_affected = affected@;
        let e = &slice.entities[i];
        proof {
            assert(src.abs_entities()[i as int] == slice.entities@[i as int]@);
        }
        let selected = match &options.only_entities {
            None => true,
            Some(v) => contains_id(v, e.id),
        };
        if selected && e.is_time_persistent() && !e.is_player() {
            proof {
                let k = crate::time_slice::spec_index_of_id(src.abs_entities(), e.id);
                assert(src.spec_has_entity(e.id));
                assert(src.abs_entities()[k].id == e.id);
                assert(k == i as int);
            }
            affected.push(e.id);
            sources.push(e.clone());
            proof {
                assert(affected@.last() == e.id);
                assert forall|id: EntityId| pre_affected.contains(id) implies #[trigger] affected@.contains(
                    id,
                ) by {
                    let w = choose|w: int| 0 <= w < pre_affected.len() && pre_affected[w] == id;
                    assert(affected@[w] == id);
                }
                assert(affected@.contains(e.id)) by {
                    assert(affected@[affected@.len() - 1] == e.id);
                }
            }
        }
    }
    proof {
        assert forall|id: EntityId| #[trigger] affected@.contains(id) implies spec_propagates_id(
            src,
            onlyg,
            id,
        ) by {
            let k = choose|k: int| 0 <= k < affected@.len() && affected@[k] == id;
            assert(src.spec_entity(sources@[k]@.id) == Some(sources@[k]@));
        }
        assert forall|id: EntityId| spec_propagates_id(src, onlyg, id) implies #[trigger] affected@.contains(
            id,
        ) by {
            let j = crate::time_slice::spec_index_of_id(src.abs_entities(), id);
            assert(src.abs_entities()[j].id == id);
            assert(src.spec_entity(id) == Some(src.abs_entities()[j]));
            assert(spec_source_entity(src.abs_entities()[j]));
        }
        assert forall|id: EntityId| spec_propagates_id(src, onlyg, id) implies exists|k: int|
            0 <= k < sources@.len() && (#[trigger] sources@[k])@.id == id by {
            assert(affected@.contains(id));
            let k = choose|k: int| 0 <= k < affected@.len() && affected@[k] == id;
            assert(sources@[k]@.id == id);
        }
    }
    (sources, affected)
}

/// Does the identifier occur in the list?
fn contains_id(v: &Vec<EntityId>, id: EntityId) -> (r: bool)
    ensures
        r == v@.contains(id),
{
    let n = v.len();
    for i in 0..n
        invariant
            n == v@.len(),
            forall|j: int| 0 <= j < i ==> v@[j] != id,
    {
        if v[i] == id {
            proof {
                assert(v@[i as int] == id);
            }
            return true;
        }
    }
    false
}

/// Record a collision warning for every movement-blocking entity already
/// standing on the propagated entity's cell, and report whether one exists.
fn record_collisions(
    slice: &TimeSlice,
    propagated: &Entity,
    warnings: &mut Vec<PropagationWarning>,
) -> (collides: bool)
    ensures
        final(warnings)@.len() >= old(warnings)@.len(),
        forall|i: int|
            0 <= i < old(warnings)@.len() ==> #[trigger] final(warnings)@[i] == old(warnings)@[i],
        collides == (propagated@.blocks_movement() && exists|i: int|
            0 <= i < slice.abs_entities().len() && crate::time_slice::at_cell(
                #[trigger] slice.abs_entities()[i],
                crate::position::SpatialPos { x: propagated.position.x, y: propagated.position.y },
            ) && slice.abs_entities()[i].blocks_movement() && slice.abs_entities()[i].id
                != propagated.id),
        propagated@.blocks_movement() ==> forall|i: int|
            0 <= i < slice.abs_entities().len() && crate::time_slice::at_cell(
                #[trigger] slice.abs_entities()[i],
                crate::position::SpatialPos { x: propagated.position.x, y: propagated.position.y },
            ) && slice.abs_entities()[i].blocks_movement() && slice.abs_entities()[i].id
                != propagated.id ==> final(warnings)@.contains(
                PropagationWarning::EntityCollision {
                    entity_a: slice.abs_entities()[i].id,
                    entity_b: propagated.id,
                    at: propagated.position,
                },
            ),
{
    let ghost spatial = crate::position::SpatialPos {
        x: propagated.position.x,
        y: propagated.position.y,
    };
    let mut found = false;
    if propagated.blocks_movement() {
        let n = slice.entities.len();
        for w in 0..n
            invariant
                n == slice.entities@.len(),
                propagated@.blocks_movement(),
                spatial == (crate::position::SpatialPos {
                    x: propagated.position.x,
                    y: propagated.position.y,
                }),
                warnings@.len() >= old(warnings)@.len(),
                forall|i: int|
                    0 <= i < old(warnings)@.len() ==> #[trigger] warnings@[i] == old(warnings)@[i],
                found == (exists|i: int|
                    0 <= i < w && crate::time_slice::at_cell(
                        #[trigger] slice.abs_entities()[i],
                        spatial,
                    ) && slice.abs_entities()[i].blocks_movement() && slice.abs_entities()[i].id
                        != propagated.id),
                forall|i: int|
                    0 <= i < w && crate::time_slice::at_cell(
                        #[trigger] slice.abs_entities()[i],
                        spatial,
                    ) && slice.abs_entities()[i].blocks_movement() && slice.abs_entities()[i].id
                        != propagated.id ==> warnings@.contains(
                        PropagationWarning::EntityCollision {
                            entity_a: slice.abs_entities()[i].id,
                            entity_b: propagated.id,
                            at: propagated.position,
                        },
                    ),
        {
            proof {
                assert(slice.abs_entities()[w as int] == slice.entities@[w as int]@);
            }
            let e = &slice.entities[w];
            let ghost pre = warnings@;
            if e.position.x == propagated.position.x && e.position.y == propagated.position.y
                && e.id != propagated.id && e.blocks_movement() {
                warnings.push(
                    PropagationWarning::EntityCollision {
                        entity_a: e.id,
                        entity_b: propagated.id,
                        at: propagated.position,
                    },
                );
                found = true;
                proof {
                    assert(warnings@[warnings@.len() - 1]
                        == PropagationWarning::EntityCollision {
                        entity_a: slice.abs_entities()[w as int].id,
                        entity_b: propagated.id,
                        at: propagated.position,
                    });
                    assert forall|i: int|
                        0 <= i < w + 1 && crate::time_slice::at_cell(
                            #[trigger] slice.abs_entities()[i],
                            spatial,
                        ) && slice.abs_entities()[i].blocks_movement()
                        && slice.abs_entities()[i].id != propagated.id implies warnings@.contains(
                        PropagationWarning::EntityCollision {
                            entity_a: slice.abs_entities()[i].id,
                            entity_b: propagated.id,
                            at: propagated.position,
                        },
                    ) by {
                        if i < w {
                            let ww = choose|ww: int|
                                0 <= ww < pre.len() && pre[ww]
                                    == PropagationWarning::EntityCollision {
                                    entity_a: slice.abs_entities()[i].id,
                                    entity_b: propagated.id,
                                    at: propagated.position,
                                };
                            assert(warnings@[ww] == pre[ww]);
                        }
                    }
                }
            }
        }
    }
    found
}

/// Write one propagated entity into its target slice, overwriting any
/// instance with the same identifier.
#[verifier::rlimit(100)]
fn write_propagated(
    cube: &mut TimeCube,
    propagated: Entity,
    target_t: i32,
    Ghost(src_abs): Ghost<AbsEntity>,
)
    requires
        old(cube).wf(),
        spec_cube_entities_valid(*old(cube)),
        0 <= target_t < old(cube).slices@.len(),
        propagated@ == spec_propagated(src_abs, target_t as int),
        src_abs.valid(),
        old(cube).spec_in_bounds(propagated.position),
    ensures
        final(cube).wf(),
        spec_cube_entities_valid(*final(cube)),
        final(cube).width == old(cube).width,
        final(cube).height == old(cube).height,
        final(cube).time_depth == old(cube).time_depth,
        final(cube).slices@.len() == old(cube).slices@.len(),
        forall|u: int|
            0 <= u < old(cube).slices@.len() && u != target_t as int ==> final(cube).slices@[u]
                == old(cube).slices@[u],
        final(cube).slices@[target_t as int].spec_entity(propagated.id) == Some(propagated@),
        forall|other: EntityId|
            other != propagated.id ==> #[trigger] final(cube).slices@[target_t as int].spec_entity(
                other,
            ) == old(cube).slices@[target_t as int].spec_entity(other),
{
    let tidx = target_t as usize;
    let ghost pre_slices = cube.slices@;
    let ghost prop_abs = propagated@;
    let ghost the_id = propagated.id;
    proof {
        assert(slice_consistent(
            cube.slices@[target_t as int],
            target_t as int,
            cube.width,
            cube.height,
        ));
        assert(prop_abs.position.t == target_t);
    }
    let mut s = TimeSlice::new(0, 0, 0);
    cube.slices.set_and_swap(tidx, &mut s);
    s.add_entity(propagated);
    cube.slices.set_and_swap(tidx, &mut s);
    proof {
        assert(cube.slices@ =~= pre_slices.update(tidx as int, cube.slices@[tidx as int]));
        let ns = cube.slices@[tidx as int];
        let os = pre_slices[tidx as int];
        assert forall|i2: int| 0 <= i2 < ns.abs_entities().len() implies {
            let e = #[trigger] ns.abs_entities()[i2];
            &&& 0 <= e.position.x < cube.width
            &&& 0 <= e.position.y < cube.height
            &&& e.position.t == target_t as int
            &&& e.valid()
        } by {
            assert(slice_consistent(os, target_t as int, cube.width, cube.height));
            assert(os.abs_entities() == old(cube).slices@[target_t as int].abs_entities());
            if os.spec_has_entity(the_id) {
                let w = choose|w: int|
                    0 <= w < os.abs_entities().len() && os.abs_entities()[w].id == the_id
                        && ns.abs_entities() == os.abs_entities().update(w, prop_abs);
                if i2 != w {
                    assert(ns.abs_entities()[i2] == os.abs_entities()[i2]);
                    assert(os.abs_entities()[i2].valid());
                } else {
                    assert(ns.abs_entities()[i2] == prop_abs);
                    assert(prop_abs.components == src_abs.components);
                }
            } else {
                if i2 < os.abs_entities().len() {
                    assert(ns.abs_entities()[i2] == os.abs_entities()[i2]);
                    assert(os.abs_entities()[i2].valid());
                } else {
                    assert(ns.abs_entities()[i2] == prop_abs);
                    assert(prop_abs.components == src_abs.components);
                }
            }
        }
        assert forall|k2: int| 0 <= k2 < cube.slices@.len() implies slice_consistent(
            #[trigger] cube.slices@[k2],
            k2,
            cube.width,
            cube.height,
        ) by {
            if k2 != tidx as int {
                assert(cube.slices@[k2] == pre_slices[k2]);
                assert(slice_consistent(pre_slices[k2], k2, cube.width, cube.height));
            }
        }
        assert forall|k2: int, i2: int|
            0 <= k2 < cube.slices@.len() && 0 <= i2 < cube.slices@[k2].abs_entities().len() implies (
        #[trigger] cube.slices@[k2].abs_entities()[i2]).valid() by {
            if k2 != tidx as int {
                assert(cube.slices@[k2] == pre_slices[k2]);
                assert(old(cube).slices@[k2].abs_entities()[i2].valid());
            }
        }
    }
}

/// Write one target slice of a propagation wave.
#[verifier::rlimit(100)]
fn propagate_into_slice(
    cube: &mut TimeCube,
    sources: &Vec<Entity>,
    target_t: i32,
    skip_collisions: bool,
    warnings: &mut Vec<PropagationWarning>,
    slices_updated: &mut usize,
    Ghost(old_cube): Ghost<TimeCube>,
    Ghost(src): Ghost<TimeSlice>,
    Ghost(onlyg): Ghost<Option<Seq<EntityId>>>,
    Ghost(from_t): Ghost<int>,
)
    requires
        old(cube).wf(),
        spec_cube_entities_valid(*old(cube)),
        0 <= from_t < target_t < old(cube).slices@.len(),
        old(cube).slices@[target_t as int] == old_cube.slices@[target_t as int],
        old_cube.wf(),
        0 <= from_t < old_cube.slices@.len(),
        src == old_cube.slices@[from_t],
        old(cube).width == old_cube.width,
        old(cube).height == old_cube.height,
        old(cube).time_depth == old_cube.time_depth,
        old(cube).slices@.len() == old_cube.slices@.len(),
        spec_cube_entities_valid(old_cube),
        forall|k: int|
            0 <= k < sources@.len() ==> src.spec_entity((#[trigger] sources@[k])@.id) == Some(
                sources@[k]@,
            ),
        forall|k: int|
            0 <= k < sources@.len() ==> spec_propagates_id(
                src,
                onlyg,
                (#[trigger] sources@[k])@.id,
            ),
        forall|id: EntityId|
            spec_propagates_id(src, onlyg, id) ==> exists|k: int|
                0 <= k < sources@.len() && (#[trigger] sources@[k])@.id == id,
        forall|a: int, b: int|
            0 <= a < b < sources@.len() ==> (#[trigger] sources@[a])@.id != (
            #[trigger] sources@[b])@.id,
        forall|a: int, b: int|
            0 <= a < b < sources@.len() ==> crate::time_slice::spec_index_of_id(
                src.abs_entities(),
                (#[trigger] sources@[a])@.id,
            ) < crate::time_slice::spec_index_of_id(
                src.abs_entities(),
                (#[trigger] sources@[b])@.id,
            ),
    ensures
        final(cube).wf(),
        spec_cube_entities_valid(*final(cube)),
        final(cube).width == old(cube).width,
        final(cube).height == old(cube).height,
        final(cube).time_depth == old(cube).time_depth,
        final(cube).slices@.len() == old(cube).slices@.len(),
        forall|u: int|
            0 <= u < old(cube).slices@.len() && u != target_t as int ==> final(cube).slices@[u]
                == old(cube).slices@[u],
        !skip_collisions ==> spec_slice_propagated(
            old_cube,
            final(cube).slices@[target_t as int],
            src,
            onlyg,
            target_t as int,
        ),
        skip_collisions ==> forall|id: EntityId|
            {
                ||| #[trigger] final(cube).slices@[target_t as int].spec_entity(id)
                    == old_cube.slices@[target_t as int].spec_entity(id)
                ||| final(cube).slices@[target_t as int].spec_entity(id) == Some(
                    spec_propagated(src.spec_entity(id)->Some_0, target_t as int),
                ) && spec_propagates_id(src, onlyg, id)
            },
        final(warnings)@.len() >= old(warnings)@.len(),
        forall|i: int|
            0 <= i < old(warnings)@.len() ==> #[trigger] final(warnings)@[i] == old(warnings)@[i],
        forall|id: EntityId|
            #![trigger spec_propagates_id(src, onlyg, id)]
            spec_propagates_id(src, onlyg, id) && !old_cube.spec_in_bounds(
                spec_propagated(src.spec_entity(id)->Some_0, target_t as int).position,
            ) ==> final(warnings)@.contains(
                PropagationWarning::OutOfBounds {
                    entity_id: id,
                    attempted: spec_propagated(src.spec_entity(id)->Some_0, target_t as int).position,
                },
            ),
        *final(slices_updated) >= *old(slices_updated),
        *final(slices_updated) <= *old(slices_updated) + 1,
        !skip_collisions ==> forall|id1: EntityId, id2: EntityId|
            #![trigger spec_blocking_clash(src, onlyg, old_cube, id1, id2, target_t as int)]
            spec_blocking_clash(src, onlyg, old_cube, id1, id2, target_t as int) ==> final(warnings)@.contains(
                PropagationWarning::EntityCollision {
                    entity_a: id1,
                    entity_b: id2,
                    at: spec_propagated(src.spec_entity(id2)->Some_0, target_t as int).position,
                },
            ),
{
    let tidx = target_t as usize;
    let m = sources.len();
    let mut wrote_any = false;
    for k in 0..m
        invariant
            cube.wf(),
            spec_cube_entities_valid(*cube),
            cube.width == old(cube).width,
            cube.height == old(cube).height,
            cube.time_depth == old(cube).time_depth,
            cube.slices@.len() == old(cube).slices@.len(),
            old(cube).slices@[target_t as int] == old_cube.slices@[target_t as int],
            old(cube).width == old_cube.width,
            old(cube).height == old_cube.height,
            old(cube).time_depth == old_cube.time_depth,
            old(cube).slices@.len() == old_cube.slices@.len(),
            0 <= from_t < target_t < cube.slices@.len(),
            tidx == target_t as usize,
            m == sources@.len(),
            old_cube.wf(),
            0 <= from_t < old_cube.slices@.len(),
            src == old_cube.slices@[from_t],
            spec_cube_entities_valid(old_cube),
            forall|k2: int|
                0 <= k2 < sources@.len() ==> src.spec_entity((#[trigger] sources@[k2])@.id)
                    == Some(sources@[k2]@),
            forall|k2: int|
                0 <= k2 < sources@.len() ==> spec_propagates_id(
                    src,
                    onlyg,
                    (#[trigger] sources@[k2])@.id,
                ),
            forall|u: int|
                0 <= u < old(cube).slices@.len() && u != target_t as int ==> cube.slices@[u]
                    == old(cube).slices@[u],
            forall|k2: int|
                0 <= k2 < k ==> {
                    let id = (#[trigger] sources@[k2])@.id;
                    let prop = spec_propagated(sources@[k2]@, target_t as int);
                    if !skip_collisions {
                        if old_cube.spec_in_bounds(prop.position) {
                            cube.slices@[target_t as int].spec_entity(id) == Some(prop)
                        } else {
                            cube.slices@[target_t as int].spec_entity(id)
                                == old_cube.slices@[target_t as int].spec_entity(id)
                        }
                    } else {
                        cube.slices@[target_t as int].spec_entity(id) == Some(prop)
                            || cube.slices@[target_t as int].spec_entity(id)
                            == old_cube.slices@[target_t as int].spec_entity(id)
                    }
                },
            forall|id: EntityId|
                (forall|k2: int| 0 <= k2 < sources@.len() ==> (#[trigger] sources@[k2])@.id != id)
                    ==> #[trigger] cube.slices@[target_t as int].spec_entity(id)
                    == old_cube.slices@[target_t as int].spec_entity(id),
            forall|k2: int|
                k <= k2 < sources@.len() ==> #[trigger] cube.slices@[target_t as int].spec_entity(
                    (sources@[k2])@.id,
                ) == old_cube.slices@[target_t as int].spec_entity((sources@[k2])@.id),
            forall|a: int, b: int|
                0 <= a < b < sources@.len() ==> (#[trigger] sources@[a])@.id != (
                #[trigger] sources@[b])@.id,
            warnings@.len() >= old(warnings)@.len(),
            forall|i: int|
                0 <= i < old(warnings)@.len() ==> #[trigger] warnings@[i] == old(warnings)@[i],
            *slices_updated >= *old(slices_updated),
            forall|k2: int|
                0 <= k2 < k && !old_cube.spec_in_bounds(
                    spec_propagated((#[trigger] sources@[k2])@, target_t as int).position,
                ) ==> warnings@.contains(
                    PropagationWarning::OutOfBounds {
                        entity_id: sources@[k2]@.id,
                        attempted: spec_propagated(sources@[k2]@, target_t as int).position,
                    },
                ),
            forall|a: int, b: int|
                0 <= a < b < sources@.len() ==> crate::time_slice::spec_index_of_id(
                    src.abs_entities(),
                    (#[trigger] sources@[a])@.id,
                ) < crate::time_slice::spec_index_of_id(
                    src.abs_entities(),
                    (#[trigger] sources@[b])@.id,
                ),
            !skip_collisions ==> forall|ka: int, kb: int|
                #![trigger spec_blocking_clash(src, onlyg, old_cube, sources@[ka]@.id, sources@[kb]@.id, target_t as int)]
                0 <= ka < kb < k && spec_blocking_clash(
                    src,
                    onlyg,
                    old_cube,
                    sources@[ka]@.id,
                    sources@[kb]@.id,
                    target_t as int,
                ) ==> warnings@.contains(
                    PropagationWarning::EntityCollision {
                        entity_a: sources@[ka]@.id,
                        entity_b: sources@[kb]@.id,
                        at: spec_propagated(
                            src.spec_entity(sources@[kb]@.id)->Some_0,
                            target_t as int,
                        ).position,
                    },
                ),
    {
        let ghost pre_warnings = warnings@;
        let ghost iter_cube = *cube;
        let ghost mut mid_warnings = warnings@;
        let entity = &sources[k];
        proof {
            assert(src.spec_entity(sources@[k as int]@.id) == Some(sources@[k as int]@));
            assert(sources@[k as int]@.valid()) by {
                let j = crate::time_slice::spec_index_of_id(
                    src.abs_entities(),
                    sources@[k as int]@.id,
                );
                assert(src.abs_entities()[j].valid());
            }
        }
        let propagated = match compute_propagated_entity(entity, target_t) {
            Some(p) => p,
            None => {
                proof {
                    assert(spec_source_entity(sources@[k as int]@));
                    assert(false);
                }
                return;
            },
        };
        if !cube.in_bounds(propagated.position) {
            warnings.push(
                PropagationWarning::OutOfBounds {
                    entity_id: propagated.id,
                    attempted: propagated.position,
                },
            );
            proof {
                assert(!old_cube.spec_in_bounds(
                    spec_propagated(sources@[k as int]@, target_t as int).position,
                ));
                assert(warnings@[warnings@.len() - 1] == PropagationWarning::OutOfBounds {
                    entity_id: sources@[k as int]@.id,
                    attempted: spec_propagated(sources@[k as int]@, target_t as int).position,
                });
            }
        } else {
            // record a warning for a movement-blocking overlap at the
            // target cell, and honour the skip option
            let collides = record_collisions(&cube.slices[tidx], &propagated, warnings);
            proof {
                mid_warnings = warnings@;
            }
            let skip_this = skip_collisions && collides;
            if !skip_this {
                proof {
                    assert(sources@[k as int]@.valid());
                }
                write_propagated(
                    cube,
                    propagated,
                    target_t,
                    Ghost(sources@[k as int]@),
                );
                wrote_any = true;
            }
        }
        proof {
            assert forall|k2: int|
                0 <= k2 < k + 1 && !old_cube.spec_in_bounds(
                    spec_propagated((#[trigger] sources@[k2])@, target_t as int).position,
                ) implies warnings@.contains(
                PropagationWarning::OutOfBounds {
                    entity_id: sources@[k2]@.id,
                    attempted: spec_propagated(sources@[k2]@, target_t as int).position,
                },
            ) by {
                if k2 < k {
                    let ww = choose|ww: int|
                        0 <= ww < pre_warnings.len() && pre_warnings[ww]
                            == PropagationWarning::OutOfBounds {
                            entity_id: sources@[k2]@.id,
                            attempted: spec_propagated(sources@[k2]@, target_t as int).position,
                        };
                    assert(warnings@[ww] == pre_warnings[ww]);
                }
            }
            if !skip_collisions {
                assert forall|ka: int, kb: int|
                    #![trigger spec_blocking_clash(src, onlyg, old_cube, sources@[ka]@.id, sources@[kb]@.id, target_t as int)]
                    0 <= ka < kb < k + 1 && spec_blocking_clash(
                        src,
                        onlyg,
                        old_cube,
                        sources@[ka]@.id,
                        sources@[kb]@.id,
                        target_t as int,
                    ) implies warnings@.contains(
                    PropagationWarning::EntityCollision {
                        entity_a: sources@[ka]@.id,
                        entity_b: sources@[kb]@.id,
                        at: spec_propagated(
                            src.spec_entity(sources@[kb]@.id)->Some_0,
                            target_t as int,
                        ).position,
                    },
                ) by {
                    if kb < k {
                        let ww = choose|ww: int|
                            0 <= ww < pre_warnings.len() && pre_warnings[ww]
                                == PropagationWarning::EntityCollision {
                                entity_a: sources@[ka]@.id,
                                entity_b: sources@[kb]@.id,
                                at: spec_propagated(
                                    src.spec_entity(sources@[kb]@.id)->Some_0,
                                    target_t as int,
                                ).position,
                            };
                        assert(warnings@[ww] == pre_warnings[ww]);
                    } else {
                        // kb == k: the earlier member already stands written
                        // at the shared cell, so the collision scan recorded
                        // the pair
                        let id_a = sources@[ka]@.id;
                        let id_b = sources@[kb]@.id;
                        assert(src.spec_entity(id_b) == Some(sources@[kb]@));
                        let prop_b = spec_propagated(sources@[kb]@, target_t as int);
                        let prop_a = spec_propagated(
                            src.spec_entity(id_a)->Some_0,
                            target_t as int,
                        );
                        assert(iter_cube.slices@[target_t as int].spec_entity(id_a) == Some(
                            prop_a,
                        ));
                        let es2 = iter_cube.slices@[target_t as int].abs_entities();
                        assert(crate::time_slice::spec_has_id(es2, id_a));
                        let w = crate::time_slice::spec_index_of_id(es2, id_a);
                        assert(es2[w].id == id_a);
                        assert(es2[w] == prop_a);
                        assert(crate::time_slice::at_cell(
                            es2[w],
                            crate::position::SpatialPos {
                                x: prop_b.position.x,
                                y: prop_b.position.y,
                            },
                        ));
                        let ww = choose|ww: int|
                            0 <= ww < mid_warnings.len() && mid_warnings[ww]
                                == PropagationWarning::EntityCollision {
                                entity_a: id_a,
                                entity_b: id_b,
                                at: prop_b.position,
                            };
                        assert(warnings@[ww] == mid_warnings[ww]);
                    }
                }
            }
        }
    }
    if wrote_any {
        if *slices_updated < usize::MAX {
            *slices_updated = *slices_updated + 1;
        }
    }
    proof {
        assert forall|id: EntityId|
            #![trigger spec_propagates_id(src, onlyg, id)]
            spec_propagates_id(src, onlyg, id) && !old_cube.spec_in_bounds(
                spec_propagated(src.spec_entity(id)->Some_0, target_t as int).position,
            ) implies warnings@.contains(
            PropagationWarning::OutOfBounds {
                entity_id: id,
                attempted: spec_propagated(src.spec_entity(id)->Some_0, target_t as int).position,
            },
        ) by {
            let k2 = choose|k2: int|
                0 <= k2 < sources@.len() && (#[trigger] sources@[k2])@.id == id;
            assert(src.spec_entity(id) == Some(sources@[k2]@));
        }
        if !skip_collisions {
            assert forall|id: EntityId|
                {
                    let prop = spec_propagated(src.spec_entity(id)->Some_0, target_t as int);
                    if spec_propagates_id(src, onlyg, id) && old_cube.spec_in_bounds(prop.position) {
                        #[trigger] cube.slices@[target_t as int].spec_entity(id) == Some(
                            prop,
                        )
                    } else {
                        cube.slices@[target_t as int].spec_entity(id)
                            == old_cube.slices@[target_t as int].spec_entity(id)
                    }
                } by {
                if spec_propagates_id(src, onlyg, id) {
                    let k2 = choose|k2: int|
                        0 <= k2 < sources@.len() && (#[trigger] sources@[k2])@.id == id;
                    assert(src.spec_entity(id) == Some(sources@[k2]@));
                }
            }
        } else {
            assert forall|id: EntityId|
                {
                    ||| #[trigger] cube.slices@[target_t as int].spec_entity(id)
                        == old_cube.slices@[target_t as int].spec_entity(id)
                    ||| cube.slices@[target_t as int].spec_entity(id) == Some(
                        spec_propagated(src.spec_entity(id)->Some_0, target_t as int),
                    ) && spec_propagates_id(src, onlyg, id)
                } by {
                if !(cube.slices@[target_t as int].spec_entity(id)
                    == old_cube.slices@[target_t as int].spec_entity(id)) {
                    let k2 = choose|k2: int|
                        0 <= k2 < sources@.len() && (#[trigger] sources@[k2])@.id == id;
                    assert(src.spec_entity(id) == Some(sources@[k2]@));
                }
            }
        }
    }
}

/// Propagate a specific entity from `from_t` to all future slices.
pub fn propagate_entity(cube: &mut TimeCube, entity_id: EntityId, from_t: i32) -> (r: Result<
    PropagationResult,
    CubeError,
>)
    requires
        old(cube).wf(),
        spec_cube_entities_valid(*old(cube)),
    ensures
        final(cube).wf(),
        spec_cube_entities_valid(*final(cube)),
        final(cube).width == old(cube).width,
        final(cube).height == old(cube).height,
        final(cube).time_depth == old(cube).time_depth,
        final(cube).slices@.len() == old(cube).slices@.len(),
        !(0 <= from_t < old(cube).slices@.len()) ==> r is Err && r->Err_0
            == CubeError::TimeSliceNotFound(from_t) && final(cube).slices@ == old(cube).slices@,
        0 <= from_t < old(cube).slices@.len() ==> {
            let stop = spec_stop(None, old(cube).time_depth);
            let src = old(cube).slices@[from_t as int];
            &&& r is Ok
            &&& forall|u: int|
                0 <= u < old(cube).slices@.len() && !(from_t < u <= stop) ==> final(cube).slices@[u] == old(cube).slices@[u]
            &&& forall|u: int|
                from_t < u <= stop ==> spec_slice_propagated(
                    *old(cube),
                    final(cube).slices@[u],
                    src,
                    Some(seq![entity_id]),
                    u,
                )
            &&& r->Ok_0.context.dirty_from == from_t
        },
{
    let mut only: Vec<EntityId> = Vec::new();
    only.push(entity_id);
    proof {
        assert(only@ =~= seq![entity_id]);
    }
    propagate_from_with_options(
        cube,
        from_t,
        PropagationOptions { only_entities: Some(only), stop_at: None, skip_collisions: false },
    )
}

/// Remove an entity from all slices starting at time `from_t`; the result
/// counts how many slices held an instance.
pub fn depropagate_entity(cube: &mut TimeCube, entity_id: EntityId, from_t: i32) -> (r: Result<
    usize,
    CubeError,
>)
    requires
        old(cube).wf(),
        spec_cube_entities_valid(*old(cube)),
    ensures
        final(cube).wf(),
        spec_cube_entities_valid(*final(cube)),
        final(cube).width == old(cube).width,
        final(cube).height == old(cube).height,
        final(cube).time_depth == old(cube).time_depth,
        final(cube).slices@.len() == old(cube).slices@.len(),
        !(0 <= from_t < old(cube).time_depth) ==> r is Err && r->Err_0
            == CubeError::TimeSliceNotFound(from_t) && final(cube).slices@ == old(cube).slices@,
        0 <= from_t < old(cube).time_depth ==> {
            &&& r is Ok
            &&& r->Ok_0 == crate::time_cube::spec_despawn_list(
                old(cube).slices@.skip(from_t as int),
                entity_id,
            ).len()
            &&& forall|u: int|
                0 <= u < from_t ==> final(cube).slices@[u] == old(cube).slices@[u]
            &&& forall|u: int|
                from_t <= u < old(cube).slices@.len() ==> (#[trigger] final(cube).slices@[u]).spec_entity(entity_id) is None
            &&& forall|u: int, other: EntityId|
                from_t <= u < old(cube).slices@.len() && other != entity_id ==> #[trigger] final(cube).slices@[u].spec_entity(other) == old(cube).slices@[u].spec_entity(other)
        },
{
    if from_t < 0 || from_t >= cube.time_depth {
        return Err(CubeError::TimeSliceNotFound(from_t));
    }
    let ghost old_slices = cube.slices@;
    let mut removed: usize = 0;
    let n = cube.slices.len();
    let span = n - (from_t as usize);
    let mut idx = from_t as usize;
    proof {
        assert(old_slices.skip(from_t as int).subrange(0, 0) =~= Seq::<TimeSlice>::empty());
    }
    for off in 0..span
        invariant
            span == n - (from_t as usize),
            idx == from_t as usize + off,
            n == cube.slices@.len(),
            old_slices.len() == n,
            old_slices == old(cube).slices@,
            from_t as usize <= idx,
            0 <= from_t < old(cube).time_depth,
            cube.width == old(cube).width,
            cube.height == old(cube).height,
            cube.time_depth == old(cube).time_depth,
            old(cube).wf(),
            spec_cube_entities_valid(*old(cube)),
            forall|k: int| idx <= k < n ==> cube.slices@[k] == old_slices[k],
            forall|k: int| 0 <= k < from_t ==> cube.slices@[k] == old_slices[k],
            forall|k: int|
                0 <= k < n ==> slice_consistent(
                    #[trigger] cube.slices@[k],
                    k,
                    cube.width,
                    cube.height,
                ),
            forall|k: int|
                from_t <= k < idx ==> (#[trigger] cube.slices@[k]).spec_entity(entity_id) is None,
            forall|k: int, other: EntityId|
                from_t <= k < idx && other != entity_id ==> #[trigger] cube.slices@[k].spec_entity(
                    other,
                ) == old_slices[k].spec_entity(other),
            removed as int == crate::time_cube::spec_despawn_list(
                old_slices.skip(from_t as int).subrange(0, idx - from_t as usize),
                entity_id,
            ).len(),
            removed <= idx,
    {
        proof {
            let sk = old_slices.skip(from_t as int);
            assert(sk.subrange(0, idx - from_t as usize + 1).drop_last() =~= sk.subrange(
                0,
                idx - from_t as usize,
            ));
            assert(sk.subrange(0, idx - from_t as usize + 1).last() == old_slices[idx as int]);
        }
        let ghost pre_slices = cube.slices@;
        proof {
            assert(slice_consistent(
                cube.slices@[idx as int],
                idx as int,
                cube.width,
                cube.height,
            ));
        }
        let mut s = TimeSlice::new(0, 0, 0);
        cube.slices.set_and_swap(idx, &mut s);
        let rem = s.remove_entity(entity_id);
        cube.slices.set_and_swap(idx, &mut s);
        proof {
            assert(cube.slices@ =~= pre_slices.update(idx as int, cube.slices@[idx as int]));
            let ns = cube.slices@[idx as int];
            let os = old_slices[idx as int];
            if os.spec_has_entity(entity_id) {
                let w = choose|w: int|
                    0 <= w < os.abs_entities().len() && os.abs_entities()[w].id == entity_id
                        && ns.abs_entities() == os.abs_entities().remove(w);
                assert forall|i: int| 0 <= i < ns.abs_entities().len() implies {
                    let e = #[trigger] ns.abs_entities()[i];
                    0 <= e.position.x < cube.width && 0 <= e.position.y < cube.height
                        && e.position.t == idx as int
                } by {
                    if i < w {
                        assert(ns.abs_entities()[i] == os.abs_entities()[i]);
                    } else {
                        assert(ns.abs_entities()[i] == os.abs_entities()[i + 1]);
                    }
                }
            }
        }
        if rem.is_some() {
            removed = removed + 1;
        }
        idx = idx + 1;
    }
    proof {
        assert(old_slices.skip(from_t as int).subrange(
            0,
            n - from_t as usize,
        ) =~= old_slices.skip(from_t as int));
        assert forall|k2: int, id2: EntityId| 0 <= k2 < cube.slices@.len() implies {
            ||| #[trigger] cube.slices@[k2].spec_entity(id2) == old(cube).slices@[k2].spec_entity(
                id2,
            )
            ||| cube.slices@[k2].spec_entity(id2) is None
            ||| (cube.slices@[k2].spec_entity(id2) matches Some(e) && e.valid())
        } by {
            if k2 < from_t {
                assert(cube.slices@[k2] == old_slices[k2]);
            } else {
                if id2 == entity_id {
                    assert(cube.slices@[k2].spec_entity(id2) is None);
                } else {
                    assert(cube.slices@[k2].spec_entity(id2) == old_slices[k2].spec_entity(id2));
                }
            }
        }
        assert forall|k2: int| 0 <= k2 < cube.slices@.len() implies (
        #[trigger] cube.slices@[k2]).wf() by {
            assert(slice_consistent(cube.slices@[k2], k2, cube.width, cube.height));
        }
        lemma_cube_validity_preserved(*old(cube), *cube);
    }
    Ok(removed)
}

impl TimeCube {
    /// Propagate all time-persistent entities from `from_t` to `from_t + 1`:
    /// the result counts the slices that changed (0 or 1).
    pub fn propagate_slice(&mut self, from_t: i32) -> (r: Result<usize, CubeError>)
        requires
            old(self).wf(),
            spec_cube_entities_valid(*old(self)),
        ensures
            final(self).wf(),
            spec_cube_entities_valid(*final(self)),
            final(self).width == old(self).width,
            final(self).height == old(self).height,
            final(self).time_depth == old(self).time_depth,
            final(self).slices@.len() == old(self).slices@.len(),
            !(0 <= from_t < old(self).slices@.len()) ==> r is Err && r->Err_0
                == CubeError::TimeSliceNotFound(from_t) && final(self).slices@ == old(
                self,
            ).slices@,
            0 <= from_t < old(self).slices@.len() ==> {
                let stop = spec_stop(Some((from_t + 1) as i32), old(self).time_depth);
                let src = old(self).slices@[from_t as int];
                &&& r is Ok
                &&& r->Ok_0 <= 1
                &&& forall|u: int|
                    0 <= u < old(self).slices@.len() && !(from_t < u <= stop) ==> final(self).slices@[u] == old(self).slices@[u]
                &&& forall|u: int|
                    from_t < u <= stop ==> spec_slice_propagated(
                        *old(self),
                        final(self).slices@[u],
                        src,
                        None,
                        u,
                    )
            },
    {
        if from_t < 0 || from_t as usize >= self.slices.len() {
            return Err(CubeError::TimeSliceNotFound(from_t));
        }
        let result = propagate_from_with_options(
            self,
            from_t,
            PropagationOptions {
                only_entities: None,
                stop_at: Some(from_t + 1),
                skip_collisions: false,
            },
        );
        match result {
            Ok(res) => {
                let updated = res.context.slices_updated;
                if updated <= 1 {
                    Ok(updated)
                } else {
                    Ok(1)
                }
            },
            Err(e) => Err(e),
        }
    }

    /// Propagate all time-persistent entities from t=0 to the cube's end.
    pub fn propagate_all(&mut self) -> (r: Result<PropagationResult, CubeError>)
        requires
            old(self).wf(),
            spec_cube_entities_valid(*old(self)),
        ensures
            final(self).wf(),
            spec_cube_entities_valid(*final(self)),
            final(self).width == old(self).width,
            final(self).height == old(self).height,
            final(self).time_depth == old(self).time_depth,
            final(self).slices@.len() == old(self).slices@.len(),
            old(self).slices@.len() == 0 ==> r is Err && final(self).slices@ == old(self).slices@,
            old(self).slices@.len() > 0 ==> {
                let stop = spec_stop(None, old(self).time_depth);
                let src = old(self).slices@[0];
                &&& r is Ok
                &&& forall|u: int|
                    0 <= u < old(self).slices@.len() && !(0 < u <= stop) ==> final(self).slices@[u] == old(self).slices@[u]
                &&& forall|u: int|
                    0 < u <= stop ==> spec_slice_propagated(
                        *old(self),
                        final(self).slices@[u],
                        src,
                        None,
                        u,
                    )
            },
    {
        propagate_from(self, 0)
    }
}

} // verus!
