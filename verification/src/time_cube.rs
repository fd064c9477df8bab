//! The complete 3D Space-Time Cube.

use vstd::prelude::*;
use vstd::pervasive::VecAdditionalExecFns;

use crate::components::{AbsComponent, EntityId, RiftData};
use crate::entity::{AbsEntity, Entity};
use crate::position::{Position, SpatialPos};
use crate::time_slice::{spec_enemies, spec_has_id, TimeSlice};

verus! {

/// Error types for cube operations.
#[derive(Debug, Clone, Copy, PartialEq, Eq, Structural)]
pub enum CubeError {
    /// Position out of bounds.
    OutOfBounds {
        /// X coordinate.
        x: i32,
        /// Y coordinate.
        y: i32,
        /// T coordinate.
        t: i32,
        /// Max x.
        max_x: i32,
        /// Max y.
        max_y: i32,
        /// Max t.
        max_t: i32,
    },
    /// Entity not found.
    EntityNotFound(EntityId),
    /// Entity already exists in slice.
    EntityAlreadyExists {
        /// Entity id.
        id: EntityId,
        /// Time slice.
        t: i32,
    },
    /// Time slice not found.
    TimeSliceNotFound(i32),
    /// Position blocked.
    PositionBlocked {
        /// X coordinate.
        x: i32,
        /// Y coordinate.
        y: i32,
        /// T coordinate.
        t: i32,
    },
}

/// The complete Space-Time Cube.
///
/// Valid coordinates: `0 <= x < width`, `0 <= y < height`,
/// `0 <= t < time_depth`.
#[derive(Debug)]
pub struct TimeCube {
    /// Grid dimensions (spatial).
    pub width: i32,
    /// Grid dimensions (spatial).
    pub height: i32,
    /// Number of time slices (0 to time_depth - 1).
    pub time_depth: i32,
    /// Time slices, indexed by t.
    pub slices: Vec<TimeSlice>,
}

/// The slice at index `k` of a cube with the given dimensions is internally
/// coherent: it carries its own index as its time coordinate, the cube's
/// spatial dimensions, unique entity identifiers, and only entities whose
/// positions lie on the grid at time `k`.
pub open spec fn slice_consistent(s: TimeSlice, k: int, width: i32, height: i32) -> bool {
    &&& s.t == k
    &&& s.width == width
    &&& s.height == height
    &&& s.wf()
    &&& forall|i: int|
        0 <= i < s.abs_entities().len() ==> {
            let e = #[trigger] s.abs_entities()[i];
            0 <= e.position.x < width && 0 <= e.position.y < height && e.position.t == k
        }
}

/// Every entity stored anywhere in the cube has a structurally valid
/// component set.
pub open spec fn spec_cube_entities_valid(c: TimeCube) -> bool {
    forall|k: int, i: int|
        0 <= k < c.slices@.len() && 0 <= i < c.slices@[k].abs_entities().len() ==> (
        #[trigger] c.slices@[k].abs_entities()[i]).valid()
}

/// The entity's model carried to time `t`, same spatial cell.
pub open spec fn abs_at_time(e: AbsEntity, t: int) -> AbsEntity {
    AbsEntity { position: (Position { x: e.position.x, y: e.position.y, t: t as i32 }), ..e }
}

/// The instances of entity `id` removed from a sequence of slices, in
/// ascending time order.
pub open spec fn spec_despawn_list(slices: Seq<TimeSlice>, id: EntityId) -> Seq<AbsEntity>
    decreases slices.len(),
{
    if slices.len() == 0 {
        Seq::empty()
    } else {
        let rest = spec_despawn_list(slices.drop_last(), id);
        if slices.last().spec_has_entity(id) {
            rest.push(slices.last().spec_entity(id)->Some_0)
        } else {
            rest
        }
    }
}

impl Clone for TimeCube {
    /// Clone preserves the model of every slice exactly.
    fn clone(&self) -> (res: Self)
        ensures
            res.width == self.width,
            res.height == self.height,
            res.time_depth == self.time_depth,
            res.slices@.len() == self.slices@.len(),
            forall|k: int|
                0 <= k < self.slices@.len() ==> (#[trigger] res.slices@[k])@ == self.slices@[k]@,
            self.wf() ==> res.wf(),
    {
        let mut slices: Vec<TimeSlice> = Vec::new();
        let n = self.slices.len();
        for i in 0..n
            invariant
                n == self.slices@.len(),
                slices@.len() == i,
                forall|k: int| 0 <= k < i ==> (#[trigger] slices@[k])@ == self.slices@[k]@,
        {
            slices.push(self.slices[i].clone());
        }
        let res = TimeCube {
            width: self.width,
            height: self.height,
            time_depth: self.time_depth,
            slices,
        };
        proof {
            if self.wf() {
                assert forall|k: int| 0 <= k < res.slices@.len() implies slice_consistent(
                    #[trigger] res.slices@[k],
                    k,
                    res.width,
                    res.height,
                ) by {
                    assert(slice_consistent(self.slices@[k], k, self.width, self.height));
                    assert(res.slices@[k]@ == self.slices@[k]@);
                    assert(res.slices@[k].abs_entities() == self.slices@[k].abs_entities());
                }
            }
        }
        res
    }
}

impl TimeCube {
    /// The cube's slices are indexed by their time coordinate, share the
    /// cube's dimensions, and hold only in-bounds entities with unique
    /// identifiers.
    pub open spec fn wf(&self) -> bool {
        &&& self.time_depth >= 0
        &&& self.slices@.len() == self.time_depth
        &&& forall|k: int|
            0 <= k < self.slices@.len() ==> slice_consistent(
                #[trigger] self.slices@[k],
                k,
                self.width,
                self.height,
            )
    }

    /// A position lies within the cube.
    pub open spec fn spec_in_bounds(&self, pos: Position) -> bool {
        &&& 0 <= pos.x < self.width
        &&& 0 <= pos.y < self.height
        &&& 0 <= pos.t < self.time_depth
    }

    /// The entity with identifier `id` in the slice at time `t`, if any.
    pub open spec fn spec_entity_at_time(&self, id: EntityId, t: int) -> Option<AbsEntity> {
        if 0 <= t < self.slices@.len() {
            self.slices@[t].spec_entity(id)
        } else {
            None
        }
    }

    /// The slice at time `t` holds an entity with identifier `id`.
    pub open spec fn spec_has_entity_at(&self, id: EntityId, t: int) -> bool {
        0 <= t < self.slices@.len() && self.slices@[t].spec_has_entity(id)
    }

    /// Some entity at `pos` blocks movement (false out of bounds).
    pub open spec fn spec_blocks_movement(&self, pos: Position) -> bool {
        self.spec_in_bounds(pos) && self.slices@[pos.t as int].spec_blocks_movement_at(
            SpatialPos { x: pos.x, y: pos.y },
        )
    }

    /// Some entity at `pos` blocks vision (false out of bounds).
    pub open spec fn spec_blocks_vision(&self, pos: Position) -> bool {
        self.spec_in_bounds(pos) && self.slices@[pos.t as int].spec_blocks_vision_at(
            SpatialPos { x: pos.x, y: pos.y },
        )
    }

    /// In bounds and not blocked.
    pub open spec fn spec_is_walkable(&self, pos: Position) -> bool {
        self.spec_in_bounds(pos) && !self.spec_blocks_movement(pos)
    }

    /// Some entity at `pos` is a rift (false out of bounds).
    pub open spec fn spec_has_rift(&self, pos: Position) -> bool {
        self.spec_in_bounds(pos) && self.slices@[pos.t as int].spec_has_rift_at(
            SpatialPos { x: pos.x, y: pos.y },
        )
    }

    /// The rift target at `pos`: the rift data of the first entity in slice
    /// order standing on the cell and carrying a rift.
    pub open spec fn spec_rift_target(&self, pos: Position) -> Position {
        crate::time_slice::spec_first_rift_target(
            self.slices@[pos.t as int].abs_entities(),
            SpatialPos { x: pos.x, y: pos.y },
        )
    }

    /// Some entity at `pos` is the exit (false out of bounds).
    pub open spec fn spec_is_exit(&self, pos: Position) -> bool {
        self.spec_in_bounds(pos) && self.slices@[pos.t as int].spec_is_exit_at(
            SpatialPos { x: pos.x, y: pos.y },
        )
    }

    /// Create an empty cube with given dimensions. A negative time depth is
    /// treated as zero.
    pub fn new(width: i32, height: i32, time_depth: i32) -> (r: Self)
        ensures
            r.width == width,
            r.height == height,
            r.time_depth == if time_depth < 0 {
                0
            } else {
                time_depth
            },
            r.wf(),
            forall|k: int|
                0 <= k < r.slices@.len() ==> (#[trigger] r.slices@[k]).abs_entities().len() == 0,
    {
        let depth: i32 = if time_depth < 0 {
            0
        } else {
            time_depth
        };
        let mut slices: Vec<TimeSlice> = Vec::new();
        let mut t: i32 = 0;
        while t < depth
            invariant
                0 <= t <= depth,
                slices@.len() == t,
                forall|k: int|
                    0 <= k < t ==> slice_consistent(#[trigger] slices@[k], k, width, height),
                forall|k: int|
                    0 <= k < t ==> (#[trigger] slices@[k]).abs_entities().len() == 0,
            decreases depth - t,
        {
            slices.push(TimeSlice::new(t, width, height));
            t = t + 1;
        }
        Self { width, height, time_depth: depth, slices }
    }

    /// Check if position is within bounds.
    pub fn in_bounds(&self, pos: Position) -> (r: bool)
        ensures
            r == self.spec_in_bounds(pos),
    {
        pos.x >= 0 && pos.y >= 0 && pos.t >= 0 && pos.x < self.width && pos.y < self.height
            && pos.t < self.time_depth
    }

    /// Validate position, return error if out of bounds.
    pub fn validate_position(&self, pos: Position) -> (r: Result<(), CubeError>)
        ensures
            self.spec_in_bounds(pos) ==> r is Ok,
            !self.spec_in_bounds(pos) ==> r == Err::<(), CubeError>(
                CubeError::OutOfBounds {
                    x: pos.x,
                    y: pos.y,
                    t: pos.t,
                    max_x: self.width,
                    max_y: self.height,
                    max_t: self.time_depth,
                },
            ),
    {
        if self.in_bounds(pos) {
            Ok(())
        } else {
            Err(
                CubeError::OutOfBounds {
                    x: pos.x,
                    y: pos.y,
                    t: pos.t,
                    max_x: self.width,
                    max_y: self.height,
                    max_t: self.time_depth,
                },
            )
        }
    }

    /// Get a time slice (immutable).
    pub fn slice(&self, t: i32) -> (r: Option<&TimeSlice>)
        ensures
            r is Some <==> 0 <= t < self.slices@.len(),
            r matches Some(s) ==> *s == self.slices@[t as int],
    {
        if t < 0 {
            return None;
        }
        let idx = t as usize;
        if idx < self.slices.len() {
            Some(&self.slices[idx])
        } else {
            None
        }
    }

    /// Get entity by ID at a specific time.
    pub fn entity_at_time(&self, id: EntityId, t: i32) -> (r: Option<&Entity>)
        requires
            self.wf(),
        ensures
            r is Some <==> self.spec_has_entity_at(id, t as int),
            r matches Some(e) ==> Some(e@) == self.spec_entity_at_time(id, t as int) && e.id == id,
    {
        match self.slice(t) {
            Some(slice) => {
                proof {
                    assert(slice_consistent(
                        self.slices@[t as int],
                        t as int,
                        self.width,
                        self.height,
                    ));
                }
                slice.entity(id)
            },
            None => None,
        }
    }

    /// Get all entities at a position (empty when out of bounds).
    pub fn entities_at(&self, pos: Position) -> (r: Vec<&Entity>)
        requires
            self.wf(),
        ensures
            !self.spec_in_bounds(pos) ==> r@.len() == 0,
            self.spec_in_bounds(pos) ==> r@.map_values(|e: &Entity| e@)
                == crate::time_slice::spec_entities_at(
                self.slices@[pos.t as int].abs_entities(),
                SpatialPos { x: pos.x, y: pos.y },
            ),
    {
        if !self.in_bounds(pos) {
            return Vec::new();
        }
        let idx = pos.t as usize;
        self.slices[idx].entities_at(pos.spatial())
    }

    /// Get all entity IDs at a position (empty when out of bounds).
    pub fn entity_ids_at(&self, pos: Position) -> (r: Vec<EntityId>)
        requires
            self.wf(),
        ensures
            !self.spec_in_bounds(pos) ==> r@.len() == 0,
            self.spec_in_bounds(pos) ==> r@ == crate::time_slice::spec_ids_at(
                self.slices@[pos.t as int].abs_entities(),
                SpatialPos { x: pos.x, y: pos.y },
            ),
    {
        if !self.in_bounds(pos) {
            return Vec::new();
        }
        let idx = pos.t as usize;
        self.slices[idx].entity_ids_at(pos.spatial())
    }

    /// Spawn an entity at its position's time slice.
    /// Returns EntityAlreadyExists if an entity with same ID exists in that slice.
    pub fn spawn(&mut self, entity: Entity) -> (r: Result<EntityId, CubeError>)
        requires
            old(self).wf(),
            entity@.valid(),
            spec_cube_entities_valid(*old(self)),
        ensures
            final(self).wf(),
            spec_cube_entities_valid(*final(self)),

            final(self).width == old(self).width,
            final(self).height == old(self).height,
            final(self).time_depth == old(self).time_depth,
            final(self).slices@.len() == old(self).slices@.len(),
            !old(self).spec_in_bounds(entity.position) ==> r == Err::<EntityId, CubeError>(
                CubeError::OutOfBounds {
                    x: entity.position.x,
                    y: entity.position.y,
                    t: entity.position.t,
                    max_x: old(self).width,
                    max_y: old(self).height,
                    max_t: old(self).time_depth,
                },
            ) && final(self).slices@ == old(self).slices@,
            old(self).spec_in_bounds(entity.position) && old(self).spec_has_entity_at(
                entity.id,
                entity.position.t as int,
            ) ==> r == Err::<EntityId, CubeError>(
                CubeError::EntityAlreadyExists { id: entity.id, t: entity.position.t },
            ) && final(self).slices@ == old(self).slices@,
            old(self).spec_in_bounds(entity.position) && !old(self).spec_has_entity_at(
                entity.id,
                entity.position.t as int,
            ) ==> {
                &&& r == Ok::<EntityId, CubeError>(entity.id)
                &&& final(self).slices@[entity.position.t as int].abs_entities() == old(
                    self,
                ).slices@[entity.position.t as int].abs_entities().push(entity@)
                &&& forall|k: int|
                    0 <= k < old(self).slices@.len() && k != entity.position.t as int
                        ==> final(self).slices@[k] == old(self).slices@[k]
            },
    {
        if let Err(e) = self.validate_position(entity.position) {
            return Err(e);
        }
        let id = entity.id;
        let t = entity.position.t;
        let idx = t as usize;
        proof {
            assert(slice_consistent(self.slices@[t as int], t as int, self.width, self.height));
        }
        if self.slices[idx].entity(id).is_some() {
            return Err(CubeError::EntityAlreadyExists { id, t });
        }
        let ghost old_slices = self.slices@;
        let mut s = TimeSlice::new(0, 0, 0);
        self.slices.set_and_swap(idx, &mut s);
        s.add_entity(entity);
        self.slices.set_and_swap(idx, &mut s);
        proof {
            assert(self.slices@ =~= old_slices.update(idx as int, self.slices@[idx as int]));
            assert forall|k: int| 0 <= k < self.slices@.len() implies slice_consistent(
                #[trigger] self.slices@[k],
                k,
                self.width,
                self.height,
            ) by {
                assert(slice_consistent(old_slices[k], k, old(self).width, old(self).height));
                if k == idx as int {
                    let ns = self.slices@[k];
                    assert(ns.abs_entities() == old_slices[k].abs_entities().push(entity@));
                    assert forall|i: int| 0 <= i < ns.abs_entities().len() implies {
                        let e = #[trigger] ns.abs_entities()[i];
                        0 <= e.position.x < self.width && 0 <= e.position.y < self.height && e.position.t == k
                    } by {
                        if i < old_slices[k].abs_entities().len() {
                            assert(ns.abs_entities()[i] == old_slices[k].abs_entities()[i]);
                        } else {
                            assert(ns.abs_entities()[i] == entity@);
                        }
                    }
                }
            }
        }
        proof {
            assert forall|k2: int, id2: EntityId| 0 <= k2 < self.slices@.len() implies {
                ||| #[trigger] self.slices@[k2].spec_entity(id2) == old(self).slices@[k2].spec_entity(id2)
                ||| self.slices@[k2].spec_entity(id2) is None
                ||| (self.slices@[k2].spec_entity(id2) matches Some(e) && e.valid())
            } by {
                if k2 != idx as int {
                    assert(self.slices@[k2] == old_slices[k2]);
                } else {
                    if id2 != entity.id {
                        assert(self.slices@[k2].spec_entity(id2) == old_slices[k2].spec_entity(id2));
                    }
                }
            }
            assert forall|k2: int| 0 <= k2 < self.slices@.len() implies (#[trigger] self.slices@[k2]).wf() by {
                assert(slice_consistent(self.slices@[k2], k2, self.width, self.height));
            }
            lemma_cube_validity_preserved(*old(self), *self);
        }
        Ok(id)
    }

    /// Spawn and propagate: add the entity and, if it is time-persistent,
    /// clone it into every future slice at the same spatial cell.
    /// Every target slice is pre-checked for an identifier conflict before
    /// any slice is written: on a conflict the cube is left untouched and
    /// the error names the earliest conflicting time.
    pub fn spawn_and_propagate(&mut self, entity: Entity) -> (r: Result<EntityId, CubeError>)
        requires
            old(self).wf(),
            entity@.valid(),
            spec_cube_entities_valid(*old(self)),
        ensures
            final(self).wf(),
            spec_cube_entities_valid(*final(self)),

            final(self).width == old(self).width,
            final(self).height == old(self).height,
            final(self).time_depth == old(self).time_depth,
            final(self).slices@.len() == old(self).slices@.len(),
            !old(self).spec_in_bounds(entity.position) ==> r == Err::<EntityId, CubeError>(
                CubeError::OutOfBounds {
                    x: entity.position.x,
                    y: entity.position.y,
                    t: entity.position.t,
                    max_x: old(self).width,
                    max_y: old(self).height,
                    max_t: old(self).time_depth,
                },
            ) && final(self).slices@ == old(self).slices@,
            old(self).spec_in_bounds(entity.position) && old(self).spec_has_entity_at(
                entity.id,
                entity.position.t as int,
            ) ==> r == Err::<EntityId, CubeError>(
                CubeError::EntityAlreadyExists { id: entity.id, t: entity.position.t },
            ) && final(self).slices@ == old(self).slices@,
            old(self).spec_in_bounds(entity.position) && !old(self).spec_has_entity_at(
                entity.id,
                entity.position.t as int,
            ) && entity@.is_time_persistent() && (exists|u: int|
                entity.position.t < u < old(self).slices@.len() && old(self).spec_has_entity_at(
                    entity.id,
                    u,
                )) ==> (exists|tc: int|
                entity.position.t < tc < old(self).slices@.len() && old(self).spec_has_entity_at(
                    entity.id,
                    tc,
                ) && (forall|u: int|
                    entity.position.t < u < tc ==> !old(self).spec_has_entity_at(entity.id, u))
                    && r == Err::<EntityId, CubeError>(
                    CubeError::EntityAlreadyExists { id: entity.id, t: tc as i32 },
                )) && final(self).slices@ == old(self).slices@,
            old(self).spec_in_bounds(entity.position) && !old(self).spec_has_entity_at(
                entity.id,
                entity.position.t as int,
            ) && (!entity@.is_time_persistent() || forall|u: int|
                entity.position.t < u < old(self).slices@.len() ==> !old(self).spec_has_entity_at(
                    entity.id,
                    u,
                )) ==> {
                &&& r == Ok::<EntityId, CubeError>(entity.id)
                &&& final(self).slices@[entity.position.t as int].abs_entities() == old(
                    self,
                ).slices@[entity.position.t as int].abs_entities().push(entity@)
                &&& (entity@.is_time_persistent() ==> forall|u: int|
                    entity.position.t < u < old(self).slices@.len() ==> (#[trigger] final(self).slices@[u]).abs_entities() == old(self).slices@[u].abs_entities().push(
                        abs_at_time(entity@, u),
                    ))
                &&& (!entity@.is_time_persistent() ==> forall|u: int|
                    0 <= u < old(self).slices@.len() && u != entity.position.t as int
                        ==> final(self).slices@[u] == old(self).slices@[u])
                &&& forall|u: int|
                    0 <= u < entity.position.t as int ==> final(self).slices@[u] == old(
                        self,
                    ).slices@[u]
                &&& final(self).slices@[entity.position.t as int].spec_entity(entity.id) == Some(
                    entity@,
                )
                &&& (entity@.is_time_persistent() ==> forall|u: int|
                    entity.position.t < u < old(self).slices@.len() ==> (#[trigger] final(self).slices@[u]).spec_entity(entity.id) == Some(abs_at_time(entity@, u)))
                &&& forall|u: int, other: EntityId|
                    0 <= u < old(self).slices@.len() && other != entity.id ==> #[trigger] final(self).slices@[u].spec_entity(other) == old(self).slices@[u].spec_entity(other)
            },
    {
        if let Err(e) = self.validate_position(entity.position) {
            return Err(e);
        }
        let id = entity.id;
        let start_t = entity.position.t;
        let is_persistent = entity.is_time_persistent();
        proof {
            assert(slice_consistent(
                self.slices@[start_t as int],
                start_t as int,
                self.width,
                self.height,
            ));
        }
        if self.slices[start_t as usize].entity(id).is_some() {
            return Err(CubeError::EntityAlreadyExists { id, t: start_t });
        }
        if is_persistent {
            let mut t: i32 = start_t + 1;
            while t < self.time_depth
                invariant
                    self == old(self),
                    old(self).wf(),
                    spec_cube_entities_valid(*old(self)),
                    0 <= start_t < t,
                    id == entity.id,
                    start_t == entity.position.t,
                    old(self).spec_in_bounds(entity.position),
                    !old(self).spec_has_entity_at(id, start_t as int),
                    entity@.is_time_persistent(),
                    forall|u: int| start_t < u < t ==> !old(self).spec_has_entity_at(id, u),
                decreases self.time_depth - t,
            {
                proof {
                    assert(slice_consistent(
                        self.slices@[t as int],
                        t as int,
                        self.width,
                        self.height,
                    ));
                }
                if self.slices[t as usize].entity(id).is_some() {
                    proof {
                        assert(old(self).spec_has_entity_at(id, t as int));
                    }
                    return Err(CubeError::EntityAlreadyExists { id, t });
                }
                t = t + 1;
            }
        }
        let ghost old_slices = self.slices@;
        let first = entity.clone();
        let idx = start_t as usize;
        let mut s = TimeSlice::new(0, 0, 0);
        self.slices.set_and_swap(idx, &mut s);
        s.add_entity(first);
        self.slices.set_and_swap(idx, &mut s);
        proof {
            assert(self.slices@ =~= old_slices.update(idx as int, self.slices@[idx as int]));
            let ns = self.slices@[idx as int];
            assert(ns.abs_entities() == old_slices[idx as int].abs_entities().push(entity@));
            assert forall|i: int| 0 <= i < ns.abs_entities().len() implies {
                let e = #[trigger] ns.abs_entities()[i];
                0 <= e.position.x < self.width && 0 <= e.position.y < self.height && e.position.t
                    == idx as int
            } by {
                if i < old_slices[idx as int].abs_entities().len() {
                    assert(ns.abs_entities()[i] == old_slices[idx as int].abs_entities()[i]);
                } else {
                    assert(ns.abs_entities()[i] == entity@);
                }
            }
        }
        if is_persistent {
            let mut t: i32 = start_t + 1;
            while t < self.time_depth
                invariant
                    old(self).wf(),
                    self.width == old(self).width,
                    self.height == old(self).height,
                    self.time_depth == old(self).time_depth,
                    self.slices@.len() == old_slices.len(),
                    old_slices == old(self).slices@,
                    old_slices.len() == self.time_depth,
                    start_t < t,
                    0 <= start_t < self.time_depth,
                    entity.position.t == start_t,
                    old(self).spec_in_bounds(entity.position),
                    forall|u: int| start_t < u < old_slices.len() ==> !old(
                        self,
                    ).spec_has_entity_at(id, u),
                    id == entity.id,
                    self.slices@[start_t as int].abs_entities() == old_slices[start_t as int].abs_entities().push(entity@),
                    forall|u: int|
                        start_t < u < t ==> (#[trigger] self.slices@[u]).abs_entities()
                            == old_slices[u].abs_entities().push(abs_at_time(entity@, u)),
                    forall|u: int|
                        0 <= u < old_slices.len() && !(start_t <= u < t) ==> self.slices@[u]
                            == old_slices[u],
                    forall|k: int|
                        0 <= k < self.slices@.len() ==> slice_consistent(
                            #[trigger] self.slices@[k],
                            k,
                            self.width,
                            self.height,
                        ),
                decreases self.time_depth - t,
            {
                let copy = entity.at_time(t);
                let tidx = t as usize;
                let ghost pre_slices = self.slices@;
                proof {
                    assert(self.slices@[t as int] == old_slices[t as int]);
                    assert(!old(self).spec_has_entity_at(id, t as int));
                    assert(!old_slices[t as int].spec_has_entity(id));
                }
                let mut s2 = TimeSlice::new(0, 0, 0);
                self.slices.set_and_swap(tidx, &mut s2);
                s2.add_entity(copy);
                self.slices.set_and_swap(tidx, &mut s2);
                proof {
                    assert(self.slices@ =~= pre_slices.update(
                        tidx as int,
                        self.slices@[tidx as int],
                    ));
                    let ns = self.slices@[tidx as int];
                    assert(copy@ == abs_at_time(entity@, t as int));
                    assert(ns.abs_entities() == old_slices[t as int].abs_entities().push(copy@));
                    assert forall|i: int| 0 <= i < ns.abs_entities().len() implies {
                        let e = #[trigger] ns.abs_entities()[i];
                        0 <= e.position.x < self.width && 0 <= e.position.y < self.height
                            && e.position.t == tidx as int
                    } by {
                        assert(slice_consistent(
                            old_slices[t as int],
                            t as int,
                            self.width,
                            self.height,
                        ));
                        if i < old_slices[t as int].abs_entities().len() {
                            assert(ns.abs_entities()[i] == old_slices[t as int].abs_entities()[i]);
                        } else {
                            assert(ns.abs_entities()[i] == copy@);
                        }
                    }
                }
                t = t + 1;
            }
        }
        proof {
            assert forall|k2: int, id2: EntityId| 0 <= k2 < self.slices@.len() implies {
                ||| #[trigger] self.slices@[k2].spec_entity(id2) == old(self).slices@[k2].spec_entity(
                    id2,
                )
                ||| self.slices@[k2].spec_entity(id2) is None
                ||| (self.slices@[k2].spec_entity(id2) matches Some(e) && e.valid())
            } by {
                assert(slice_consistent(
                    old(self).slices@[k2],
                    k2,
                    old(self).width,
                    old(self).height,
                ));
                if k2 == start_t as int {
                    crate::time_slice::lemma_entity_lookup_after_push(
                        old(self).slices@[k2].abs_entities(),
                        entity@,
                    );
                } else if is_persistent && start_t < k2 {
                    assert(self.slices@[k2].abs_entities() == old(
                        self,
                    ).slices@[k2].abs_entities().push(abs_at_time(entity@, k2)));
                    assert(!old(self).spec_has_entity_at(entity.id, k2));
                    crate::time_slice::lemma_entity_lookup_after_push(
                        old(self).slices@[k2].abs_entities(),
                        abs_at_time(entity@, k2),
                    );
                } else {
                    assert(self.slices@[k2] == old(self).slices@[k2]);
                }
            }
            assert forall|k2: int| 0 <= k2 < self.slices@.len() implies (
            #[trigger] self.slices@[k2]).wf() by {
                assert(slice_consistent(self.slices@[k2], k2, self.width, self.height));
            }
            lemma_cube_validity_preserved(*old(self), *self);
            assert(self.slices@[start_t as int].spec_entity(entity.id) == Some(entity@)) by {
                crate::time_slice::lemma_entity_lookup_after_push(
                    old(self).slices@[start_t as int].abs_entities(),
                    entity@,
                );
            }
            if is_persistent {
                assert forall|u: int|
                    start_t < u < old(self).slices@.len() implies (#[trigger] self.slices@[u]).spec_entity(
                        entity.id,
                    ) == Some(abs_at_time(entity@, u)) by {
                    assert(!old(self).spec_has_entity_at(entity.id, u));
                    crate::time_slice::lemma_entity_lookup_after_push(
                        old(self).slices@[u].abs_entities(),
                        abs_at_time(entity@, u),
                    );
                }
            }
            assert forall|u: int, other: EntityId|
                0 <= u < old(self).slices@.len() && other != entity.id implies #[trigger] self.slices@[u].spec_entity(
                    other,
                ) == old(self).slices@[u].spec_entity(other) by {
                if u == start_t as int {
                    crate::time_slice::lemma_entity_lookup_after_push(
                        old(self).slices@[u].abs_entities(),
                        entity@,
                    );
                } else if is_persistent && start_t < u {
                    assert(!old(self).spec_has_entity_at(entity.id, u));
                    crate::time_slice::lemma_entity_lookup_after_push(
                        old(self).slices@[u].abs_entities(),
                        abs_at_time(entity@, u),
                    );
                } else {
                    assert(self.slices@[u] == old(self).slices@[u]);
                }
            }
        }
        Ok(entity.id)
    }

    /// Spawn or replace: overwrites any existing entity with same ID in the
    /// target slice. Does NOT propagate to future slices, even if
    /// time-persistent: it exists for in-place state updates (e.g., moving
    /// the player between slices) where propagation is triggered separately.
    pub fn spawn_or_replace(&mut self, entity: Entity) -> (r: Result<EntityId, CubeError>)
        requires
            old(self).wf(),
            entity@.valid(),
            spec_cube_entities_valid(*old(self)),
        ensures
            final(self).wf(),
            spec_cube_entities_valid(*final(self)),

            final(self).width == old(self).width,
            final(self).height == old(self).height,
            final(self).time_depth == old(self).time_depth,
            final(self).slices@.len() == old(self).slices@.len(),
            !old(self).spec_in_bounds(entity.position) ==> r == Err::<EntityId, CubeError>(
                CubeError::OutOfBounds {
                    x: entity.position.x,
                    y: entity.position.y,
                    t: entity.position.t,
                    max_x: old(self).width,
                    max_y: old(self).height,
                    max_t: old(self).time_depth,
                },
            ) && final(self).slices@ == old(self).slices@,
            old(self).spec_in_bounds(entity.position) ==> {
                &&& r == Ok::<EntityId, CubeError>(entity.id)
                &&& final(self).spec_entity_at_time(entity.id, entity.position.t as int) == Some(
                    entity@,
                )
                &&& forall|other: EntityId|
                    other != entity.id ==> #[trigger] final(self).slices@[entity.position.t as int].spec_entity(
                        other,
                    ) == old(self).slices@[entity.position.t as int].spec_entity(other)
                &&& forall|k: int|
                    0 <= k < old(self).slices@.len() && k != entity.position.t as int
                        ==> final(self).slices@[k] == old(self).slices@[k]
            },
    {
        if let Err(e) = self.validate_position(entity.position) {
            return Err(e);
        }
        let id = entity.id;
        let t = entity.position.t;
        let idx = t as usize;
        proof {
            assert(slice_consistent(self.slices@[t as int], t as int, self.width, self.height));
        }
        let ghost old_slices = self.slices@;
        let mut s = TimeSlice::new(0, 0, 0);
        self.slices.set_and_swap(idx, &mut s);
        s.add_entity(entity);
        self.slices.set_and_swap(idx, &mut s);
        proof {
            assert(self.slices@ =~= old_slices.update(idx as int, self.slices@[idx as int]));
            let ns = self.slices@[idx as int];
            let os = old_slices[idx as int];
            assert forall|k: int| 0 <= k < self.slices@.len() implies slice_consistent(
                #[trigger] self.slices@[k],
                k,
                self.width,
                self.height,
            ) by {
                assert(slice_consistent(old_slices[k], k, old(self).width, old(self).height));
                if k == idx as int {
                    assert forall|i: int| 0 <= i < ns.abs_entities().len() implies {
                        let e = #[trigger] ns.abs_entities()[i];
                        0 <= e.position.x < self.width && 0 <= e.position.y < self.height && e.position.t == k
                    } by {
                        if os.spec_has_entity(entity.id) {
                            let w = choose|w: int|
                                0 <= w < os.abs_entities().len() && os.abs_entities()[w].id
                                    == entity.id && ns.abs_entities() == os.abs_entities().update(
                                    w,
                                    entity@,
                                );
                            if i != w {
                                assert(ns.abs_entities()[i] == os.abs_entities()[i]);
                            } else {
                                assert(ns.abs_entities()[i] == entity@);
                            }
                        } else {
                            if i < os.abs_entities().len() {
                                assert(ns.abs_entities()[i] == os.abs_entities()[i]);
                            } else {
                                assert(ns.abs_entities()[i] == entity@);
                            }
                        }
                    }
                }
            }
        }
        proof {
            assert forall|k2: int, id2: EntityId| 0 <= k2 < self.slices@.len() implies {
                ||| #[trigger] self.slices@[k2].spec_entity(id2) == old(self).slices@[k2].spec_entity(id2)
                ||| self.slices@[k2].spec_entity(id2) is None
                ||| (self.slices@[k2].spec_entity(id2) matches Some(e) && e.valid())
            } by {
                if k2 != idx as int {
                    assert(self.slices@[k2] == old_slices[k2]);
                } else {
                    if id2 != entity.id {
                        assert(self.slices@[k2].spec_entity(id2) == old_slices[k2].spec_entity(id2));
                    }
                }
            }
            assert forall|k2: int| 0 <= k2 < self.slices@.len() implies (#[trigger] self.slices@[k2]).wf() by {
                assert(slice_consistent(self.slices@[k2], k2, self.width, self.height));
            }
            lemma_cube_validity_preserved(*old(self), *self);
        }
        Ok(id)
    }

    /// Remove an entity from a specific time slice.
    pub fn despawn_at(&mut self, id: EntityId, t: i32) -> (r: Result<Entity, CubeError>)
        requires
            old(self).wf(),
            spec_cube_entities_valid(*old(self)),
        ensures
            final(self).wf(),
            spec_cube_entities_valid(*final(self)),

            final(self).width == old(self).width,
            final(self).height == old(self).height,
            final(self).time_depth == old(self).time_depth,
            final(self).slices@.len() == old(self).slices@.len(),
            !(0 <= t < old(self).slices@.len()) ==> r == Err::<Entity, CubeError>(
                CubeError::TimeSliceNotFound(t),
            ) && final(self).slices@ == old(self).slices@,
            0 <= t < old(self).slices@.len() && !old(self).spec_has_entity_at(id, t as int) ==> r
                == Err::<Entity, CubeError>(CubeError::EntityNotFound(id)) && final(self).slices@
                == old(self).slices@,
            0 <= t < old(self).slices@.len() && old(self).spec_has_entity_at(id, t as int) ==> {
                &&& r matches Ok(e) && Some(e@) == old(self).spec_entity_at_time(id, t as int)
                &&& final(self).slices@[t as int].spec_entity(id) is None
                &&& forall|other: EntityId|
                    other != id ==> #[trigger] final(self).slices@[t as int].spec_entity(other)
                        == old(self).slices@[t as int].spec_entity(other)
                &&& forall|k: int|
                    0 <= k < old(self).slices@.len() && k != t as int ==> final(self).slices@[k]
                        == old(self).slices@[k]
            },
    {
        if t < 0 || t as usize >= self.slices.len() {
            return Err(CubeError::TimeSliceNotFound(t));
        }
        let idx = t as usize;
        proof {
            assert(slice_consistent(self.slices@[t as int], t as int, self.width, self.height));
        }
        if self.slices[idx].entity(id).is_none() {
            return Err(CubeError::EntityNotFound(id));
        }
        let ghost old_slices = self.slices@;
        let mut s = TimeSlice::new(0, 0, 0);
        self.slices.set_and_swap(idx, &mut s);
        let removed = s.remove_entity(id);
        self.slices.set_and_swap(idx, &mut s);
        proof {
            assert(self.slices@ =~= old_slices.update(idx as int, self.slices@[idx as int]));
            let ns = self.slices@[idx as int];
            let os = old_slices[idx as int];
            assert forall|k: int| 0 <= k < self.slices@.len() implies slice_consistent(
                #[trigger] self.slices@[k],
                k,
                self.width,
                self.height,
            ) by {
                assert(slice_consistent(old_slices[k], k, old(self).width, old(self).height));
                if k == idx as int {
                    if os.spec_has_entity(id) {
                        let w = choose|w: int|
                            0 <= w < os.abs_entities().len() && os.abs_entities()[w].id == id
                                && ns.abs_entities() == os.abs_entities().remove(w);
                        assert forall|i: int| 0 <= i < ns.abs_entities().len() implies {
                            let e = #[trigger] ns.abs_entities()[i];
                            0 <= e.position.x < self.width && 0 <= e.position.y < self.height && e.position.t == k
                        } by {
                            if i < w {
                                assert(ns.abs_entities()[i] == os.abs_entities()[i]);
                            } else {
                                assert(ns.abs_entities()[i] == os.abs_entities()[i + 1]);
                            }
                        }
                    }
                }
            }
        }
        proof {
            assert forall|k2: int, id2: EntityId| 0 <= k2 < self.slices@.len() implies {
                ||| #[trigger] self.slices@[k2].spec_entity(id2) == old(self).slices@[k2].spec_entity(id2)
                ||| self.slices@[k2].spec_entity(id2) is None
                ||| (self.slices@[k2].spec_entity(id2) matches Some(e) && e.valid())
            } by {
                if k2 != idx as int {
                    assert(self.slices@[k2] == old_slices[k2]);
                } else {
                    if id2 != id {
                        assert(self.slices@[k2].spec_entity(id2) == old_slices[k2].spec_entity(id2));
                    }
                }
            }
            assert forall|k2: int| 0 <= k2 < self.slices@.len() implies (#[trigger] self.slices@[k2]).wf() by {
                assert(slice_consistent(self.slices@[k2], k2, self.width, self.height));
            }
            lemma_cube_validity_preserved(*old(self), *self);
        }
        match removed {
            Some(entity) => Ok(entity),
            None => Err(CubeError::EntityNotFound(id)),
        }
    }

    /// Remove an entity from all time slices; the removed instances are
    /// returned in ascending time order.
    pub fn despawn_all(&mut self, id: EntityId) -> (r: Vec<Entity>)
        requires
            old(self).wf(),
            spec_cube_entities_valid(*old(self)),
        ensures
            final(self).wf(),
            spec_cube_entities_valid(*final(self)),

            final(self).width == old(self).width,
            final(self).height == old(self).height,
            final(self).time_depth == old(self).time_depth,
            final(self).slices@.len() == old(self).slices@.len(),
            forall|k: int|
                0 <= k < final(self).slices@.len() ==> (#[trigger] final(self).slices@[k]).spec_entity(
                    id,
                ) is None,
            forall|k: int, other: EntityId|
                0 <= k < final(self).slices@.len() && other != id ==> #[trigger] final(self).slices@[k].spec_entity(other) == old(self).slices@[k].spec_entity(other),
            r@.map_values(|e: Entity| e@) == spec_despawn_list(old(self).slices@, id),
    {
        let ghost old_slices = self.slices@;
        let mut removed: Vec<Entity> = Vec::new();
        let n = self.slices.len();
        for idx in 0..n
            invariant
                n == self.slices@.len(),
                old_slices.len() == n,
                self.width == old(self).width,
                self.height == old(self).height,
                self.time_depth == old(self).time_depth,
                old(self).wf(),
                forall|k: int| idx <= k < n ==> self.slices@[k] == old_slices[k],
                forall|k: int|
                    0 <= k < n ==> slice_consistent(
                        #[trigger] self.slices@[k],
                        k,
                        self.width,
                        self.height,
                    ),
                forall|k: int|
                    0 <= k < idx ==> (#[trigger] self.slices@[k]).spec_entity(id) is None,
                forall|k: int, other: EntityId|
                    0 <= k < idx && other != id ==> #[trigger] self.slices@[k].spec_entity(other)
                        == old_slices[k].spec_entity(other),
                removed@.map_values(|e: Entity| e@) =~= spec_despawn_list(
                    old_slices.subrange(0, idx as int),
                    id,
                ),
        {
            proof {
                assert(old_slices.subrange(0, idx + 1).drop_last() =~= old_slices.subrange(
                    0,
                    idx as int,
                ));
                assert(old_slices.subrange(0, idx + 1).last() == old_slices[idx as int]);
            }
            let ghost pre_slices = self.slices@;
            let mut s = TimeSlice::new(0, 0, 0);
            self.slices.set_and_swap(idx, &mut s);
            let rem = s.remove_entity(id);
            self.slices.set_and_swap(idx, &mut s);
            proof {
                assert(self.slices@ =~= pre_slices.update(idx as int, self.slices@[idx as int]));
                let ns = self.slices@[idx as int];
                let os = old_slices[idx as int];
                if os.spec_has_entity(id) {
                    let w = choose|w: int|
                        0 <= w < os.abs_entities().len() && os.abs_entities()[w].id == id
                            && ns.abs_entities() == os.abs_entities().remove(w);
                    assert forall|i: int| 0 <= i < ns.abs_entities().len() implies {
                        let e = #[trigger] ns.abs_entities()[i];
                        0 <= e.position.x < self.width && 0 <= e.position.y < self.height
                            && e.position.t == idx as int
                    } by {
                        if i < w {
                            assert(ns.abs_entities()[i] == os.abs_entities()[i]);
                        } else {
                            assert(ns.abs_entities()[i] == os.abs_entities()[i + 1]);
                        }
                    }
                }
            }
            let ghost before = removed@.map_values(|e: Entity| e@);
            if let Some(entity) = rem {
                removed.push(entity);
                proof {
                    assert(removed@.map_values(|e: Entity| e@) =~= before.push(
                        old_slices[idx as int].spec_entity(id)->Some_0,
                    ));
                }
            }
        }
        proof {
            assert(old_slices.subrange(0, n as int) =~= old_slices);
            assert forall|k2: int, id2: EntityId| 0 <= k2 < self.slices@.len() implies {
                ||| #[trigger] self.slices@[k2].spec_entity(id2) == old(self).slices@[k2].spec_entity(
                    id2,
                )
                ||| self.slices@[k2].spec_entity(id2) is None
                ||| (self.slices@[k2].spec_entity(id2) matches Some(e) && e.valid())
            } by {
                if id2 == id {
                    assert(self.slices@[k2].spec_entity(id2) is None);
                } else {
                    assert(self.slices@[k2].spec_entity(id2) == old_slices[k2].spec_entity(id2));
                }
            }
            assert forall|k2: int| 0 <= k2 < self.slices@.len() implies (
            #[trigger] self.slices@[k2]).wf() by {
                assert(slice_consistent(self.slices@[k2], k2, self.width, self.height));
            }
            lemma_cube_validity_preserved(*old(self), *self);
        }
        removed
    }

    /// Check if position blocks movement (false out of bounds).
    pub fn blocks_movement(&self, pos: Position) -> (r: bool)
        requires
            self.wf(),
        ensures
            r == self.spec_blocks_movement(pos),
    {
        if !self.in_bounds(pos) {
            return false;
        }
        let idx = pos.t as usize;
        self.slices[idx].blocks_movement_at(pos.spatial())
    }

    /// Check if position blocks vision (false out of bounds).
    pub fn blocks_vision(&self, pos: Position) -> (r: bool)
        requires
            self.wf(),
        ensures
            r == self.spec_blocks_vision(pos),
    {
        if !self.in_bounds(pos) {
            return false;
        }
        let idx = pos.t as usize;
        self.slices[idx].blocks_vision_at(pos.spatial())
    }

    /// Check if position is walkable (false out of bounds).
    pub fn is_walkable(&self, pos: Position) -> (r: bool)
        requires
            self.wf(),
        ensures
            r == self.spec_is_walkable(pos),
    {
        if !self.in_bounds(pos) {
            return false;
        }
        let idx = pos.t as usize;
        proof {
            assert(slice_consistent(self.slices@[pos.t as int], pos.t as int, self.width, self.height));
        }
        self.slices[idx].is_walkable(pos.spatial())
    }

    /// Check if position has a rift (false out of bounds).
    pub fn has_rift(&self, pos: Position) -> (r: bool)
        requires
            self.wf(),
        ensures
            r == self.spec_has_rift(pos),
    {
        if !self.in_bounds(pos) {
            return false;
        }
        let idx = pos.t as usize;
        self.slices[idx].has_rift_at(pos.spatial())
    }

    /// Get rift target from a position (the first rift there, if any).
    pub fn rift_target(&self, pos: Position) -> (r: Option<Position>)
        requires
            self.wf(),
            spec_cube_entities_valid(*self),
        ensures
            r is Some <==> self.spec_has_rift(pos),
            r matches Some(tp) ==> tp == self.spec_rift_target(pos),
    {
        if !self.in_bounds(pos) {
            return None;
        }
        let idx = pos.t as usize;
        self.slices[idx].rift_target_at(pos.spatial())
    }

    /// Check if position is the exit (false out of bounds).
    pub fn is_exit(&self, pos: Position) -> (r: bool)
        requires
            self.wf(),
        ensures
            r == self.spec_is_exit(pos),
    {
        if !self.in_bounds(pos) {
            return false;
        }
        let idx = pos.t as usize;
        self.slices[idx].is_exit_at(pos.spatial())
    }

    /// Get the player at a specific time (the first player entity there).
    pub fn player_at(&self, t: i32) -> (r: Option<&Entity>)
        ensures
            r is Some <==> 0 <= t < self.slices@.len() && exists|i: int|
                0 <= i < self.slices@[t as int].abs_entities().len()
                    && (#[trigger] self.slices@[t as int].abs_entities()[i]).is_player(),
            r matches Some(e) ==> self.slices@[t as int].abs_entities().contains(e@)
                && e@.is_player(),
    {
        match self.slice(t) {
            Some(slice) => slice.player(),
            None => None,
        }
    }

    /// Get all enemies at a specific time, in slice order.
    pub fn enemies_at(&self, t: i32) -> (r: Vec<&Entity>)
        ensures
            !(0 <= t < self.slices@.len()) ==> r@.len() == 0,
            0 <= t < self.slices@.len() ==> r@.map_values(|e: &Entity| e@) == spec_enemies(
                self.slices@[t as int].abs_entities(),
            ),
    {
        match self.slice(t) {
            Some(slice) => slice.enemies(),
            None => Vec::new(),
        }
    }

    /// Iterate over all time slices.
    pub fn slices(&self) -> (r: &Vec<TimeSlice>)
        ensures
            r@ == self.slices@,
    {
        &self.slices
    }
}

/// A mutation that, identifier by identifier, either keeps a slice's
/// entity, removes it, or writes a structurally valid one, preserves
/// cube-wide entity validity.
pub proof fn lemma_cube_validity_preserved(oldc: TimeCube, newc: TimeCube)
    requires
        spec_cube_entities_valid(oldc),
        newc.slices@.len() == oldc.slices@.len(),
        forall|k: int| 0 <= k < newc.slices@.len() ==> (#[trigger] newc.slices@[k]).wf(),
        forall|k: int, id: EntityId|
            0 <= k < newc.slices@.len() ==> {
                ||| #[trigger] newc.slices@[k].spec_entity(id) == oldc.slices@[k].spec_entity(id)
                ||| newc.slices@[k].spec_entity(id) is None
                ||| (newc.slices@[k].spec_entity(id) matches Some(e) && e.valid())
            },
    ensures
        spec_cube_entities_valid(newc),
{
    assert forall|k: int, i: int|
        0 <= k < newc.slices@.len() && 0 <= i < newc.slices@[k].abs_entities().len() implies (
    #[trigger] newc.slices@[k].abs_entities()[i]).valid() by {
        let es = newc.slices@[k].abs_entities();
        let e = es[i];
        assert(spec_has_id(es, e.id));
        let j = crate::time_slice::spec_index_of_id(es, e.id);
        assert(es[j].id == e.id);
        assert(j == i);
        assert(newc.slices@[k].spec_entity(e.id) == Some(e));
        if newc.slices@[k].spec_entity(e.id) == oldc.slices@[k].spec_entity(e.id) {
            let oes = oldc.slices@[k].abs_entities();
            assert(spec_has_id(oes, e.id));
            let j0 = crate::time_slice::spec_index_of_id(oes, e.id);
            assert(oes[j0].id == e.id);
            assert(oes[j0].valid());
            assert(oes[j0] == e);
        }
    }
}

/// Propagation consistency: after a successful `spawn_and_propagate` of a
/// time-persistent entity at its origin time, the same identifier stands in
/// every slice from that time to the cube's end, at the same spatial cell;
/// a subsequent `despawn_all` removes it from every one of those slices.
/// The hypotheses are exactly what those two operations ensure.
pub proof fn lemma_propagation_consistency(
    before: TimeCube,
    after: TimeCube,
    cleared: TimeCube,
    entity: AbsEntity,
)
    requires
        before.wf(),
        0 <= entity.position.t < before.slices@.len(),
        entity.is_time_persistent(),
        after.slices@.len() == before.slices@.len(),
        after.slices@[entity.position.t as int].spec_entity(entity.id) == Some(entity),
        forall|u: int|
            entity.position.t < u < before.slices@.len() ==> (#[trigger] after.slices@[u]).spec_entity(
                entity.id,
            ) == Some(abs_at_time(entity, u)),
        cleared.slices@.len() == after.slices@.len(),
        forall|u: int|
            0 <= u < cleared.slices@.len() ==> (#[trigger] cleared.slices@[u]).spec_entity(
                entity.id,
            ) is None,
    ensures
        forall|u: int|
            entity.position.t <= u < after.slices@.len() ==> {
                let inst = (#[trigger] after.slices@[u]).spec_entity(entity.id);
                &&& inst is Some
                &&& inst->Some_0.position.x == entity.position.x
                &&& inst->Some_0.position.y == entity.position.y
                &&& inst->Some_0.position.t == u
            },
        forall|u: int|
            0 <= u < cleared.slices@.len() ==> (#[trigger] cleared.slices@[u]).spec_entity(
                entity.id,
            ) is None,
{
    assert forall|u: int| entity.position.t <= u < after.slices@.len() implies {
        let inst = (#[trigger] after.slices@[u]).spec_entity(entity.id);
        &&& inst is Some
        &&& inst->Some_0.position.x == entity.position.x
        &&& inst->Some_0.position.y == entity.position.y
        &&& inst->Some_0.position.t == u
    } by {
        if u == entity.position.t as int {
            assert(after.slices@[u].spec_entity(entity.id) == Some(entity));
        } else {
            assert(after.slices@[u].spec_entity(entity.id) == Some(abs_at_time(entity, u)));
        }
    }
}

} // verus!
