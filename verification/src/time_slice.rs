//! 2D snapshot of the world at a specific time.

use vstd::prelude::*;

use crate::components::{AbsComponent, EntityId, RiftData};
use crate::entity::{AbsEntity, Entity};
use crate::position::{Position, SpatialPos};

verus! {

/// A 2D snapshot of the world at time t.
///
/// Each slice owns its entity instances; entities are cloned when propagated.
/// The slice stores its entities in insertion order and keeps their
/// identifiers unique; every spatial query is answered from the entity
/// positions themselves, so the occupancy view can never fall out of step
/// with them.
#[derive(Debug)]
pub struct TimeSlice {
    /// The time coordinate.
    pub t: i32,
    /// Grid width.
    pub width: i32,
    /// Grid height.
    pub height: i32,
    /// All entities in this slice, in insertion order.
    pub entities: Vec<Entity>,
}

/// Mathematical model of a time slice.
pub ghost struct AbsSlice {
    /// The time coordinate.
    pub t: i32,
    /// Grid width.
    pub width: i32,
    /// Grid height.
    pub height: i32,
    /// The entities, in insertion order.
    pub entities: Seq<AbsEntity>,
}

/// Some entity of the sequence has this identifier.
pub open spec fn spec_has_id(es: Seq<AbsEntity>, id: EntityId) -> bool {
    exists|i: int| 0 <= i < es.len() && es[i].id == id
}

/// The index of the entity with this identifier (unique when ids are unique).
pub open spec fn spec_index_of_id(es: Seq<AbsEntity>, id: EntityId) -> int {
    choose|i: int| 0 <= i < es.len() && es[i].id == id
}

/// The entity with this identifier, if any.
pub open spec fn spec_entity_with_id(es: Seq<AbsEntity>, id: EntityId) -> Option<AbsEntity> {
    if spec_has_id(es, id) {
        Some(es[spec_index_of_id(es, id)])
    } else {
        None
    }
}

/// No two entities of the sequence share an identifier.
pub open spec fn spec_ids_unique(es: Seq<AbsEntity>) -> bool {
    forall|i: int, j: int| 0 <= i < j < es.len() ==> es[i].id != es[j].id
}

/// The entity occupies this spatial cell (whatever its time coordinate).
pub open spec fn at_cell(e: AbsEntity, pos: SpatialPos) -> bool {
    e.position.x == pos.x && e.position.y == pos.y
}

/// The identifiers of the entities occupying `pos`, in insertion order.
pub open spec fn spec_ids_at(es: Seq<AbsEntity>, pos: SpatialPos) -> Seq<EntityId>
    decreases es.len(),
{
    if es.len() == 0 {
        Seq::empty()
    } else if at_cell(es.last(), pos) {
        spec_ids_at(es.drop_last(), pos).push(es.last().id)
    } else {
        spec_ids_at(es.drop_last(), pos)
    }
}

/// The entities occupying `pos`, in insertion order.
pub open spec fn spec_entities_at(es: Seq<AbsEntity>, pos: SpatialPos) -> Seq<AbsEntity>
    decreases es.len(),
{
    if es.len() == 0 {
        Seq::empty()
    } else if at_cell(es.last(), pos) {
        spec_entities_at(es.drop_last(), pos).push(es.last())
    } else {
        spec_entities_at(es.drop_last(), pos)
    }
}

/// The rift target at a cell: the rift data of the first entity in slice
/// order standing on the cell and carrying a rift.
pub open spec fn spec_first_rift_target(es: Seq<AbsEntity>, cell: SpatialPos) -> Position
    decreases es.len(),
{
    if es.len() == 0 {
        Position { x: 0, y: 0, t: 0 }
    } else if at_cell(es[0], cell) && es[0].is_rift() {
        es[0].rift_data().target
    } else {
        spec_first_rift_target(es.drop_first(), cell)
    }
}

/// The enemies (entities with a vision cone), in insertion order.
pub open spec fn spec_enemies(es: Seq<AbsEntity>) -> Seq<AbsEntity>
    decreases es.len(),
{
    if es.len() == 0 {
        Seq::empty()
    } else if es.last().is_enemy() {
        spec_enemies(es.drop_last()).push(es.last())
    } else {
        spec_enemies(es.drop_last())
    }
}

impl View for TimeSlice {
    type V = AbsSlice;

    open spec fn view(&self) -> AbsSlice {
        AbsSlice {
            t: self.t,
            width: self.width,
            height: self.height,
            entities: self.entities@.map_values(|e: Entity| e@),
        }
    }
}

impl Clone for TimeSlice {
    /// Clone preserves the model exactly.
    fn clone(&self) -> (res: Self)
        ensures
            res@ == self@,
    {
        let mut entities: Vec<Entity> = Vec::new();
        let n = self.entities.len();
        for i in 0..n
            invariant
                n == self.entities.len(),
                entities@.len() == i,
                forall|j: int| 0 <= j < i ==> entities@[j]@ == #[trigger] self.entities@[j]@,
        {
            entities.push(self.entities[i].clone());
        }
        let res = TimeSlice { t: self.t, width: self.width, height: self.height, entities };
        proof {
            assert(res@.entities =~= self@.entities);
        }
        res
    }
}

impl TimeSlice {
    /// The entities of the slice, as their models.
    pub open spec fn abs_entities(&self) -> Seq<AbsEntity> {
        self@.entities
    }

    /// Identifiers are unique within the slice.
    pub open spec fn wf(&self) -> bool {
        spec_ids_unique(self.abs_entities())
    }

    /// The slice holds an entity with this identifier.
    pub open spec fn spec_has_entity(&self, id: EntityId) -> bool {
        spec_has_id(self.abs_entities(), id)
    }

    /// The entity with this identifier, if any.
    pub open spec fn spec_entity(&self, id: EntityId) -> Option<AbsEntity> {
        spec_entity_with_id(self.abs_entities(), id)
    }

    /// A spatial position lies within the slice's grid.
    pub open spec fn spec_in_bounds(&self, pos: SpatialPos) -> bool {
        0 <= pos.x < self.width && 0 <= pos.y < self.height
    }

    /// Some entity at `pos` blocks movement.
    pub open spec fn spec_blocks_movement_at(&self, pos: SpatialPos) -> bool {
        exists|i: int|
            0 <= i < self.abs_entities().len() && at_cell(self.abs_entities()[i], pos)
                && self.abs_entities()[i].blocks_movement()
    }

    /// Some entity at `pos` blocks vision.
    pub open spec fn spec_blocks_vision_at(&self, pos: SpatialPos) -> bool {
        exists|i: int|
            0 <= i < self.abs_entities().len() && at_cell(self.abs_entities()[i], pos)
                && self.abs_entities()[i].blocks_vision()
    }

    /// Some entity at `pos` is a rift.
    pub open spec fn spec_has_rift_at(&self, pos: SpatialPos) -> bool {
        exists|i: int|
            0 <= i < self.abs_entities().len() && at_cell(self.abs_entities()[i], pos)
                && self.abs_entities()[i].is_rift()
    }

    /// Some entity at `pos` is the exit.
    pub open spec fn spec_is_exit_at(&self, pos: SpatialPos) -> bool {
        exists|i: int|
            0 <= i < self.abs_entities().len() && at_cell(self.abs_entities()[i], pos)
                && self.abs_entities()[i].is_exit()
    }

    /// In bounds and not blocked.
    pub open spec fn spec_is_walkable(&self, pos: SpatialPos) -> bool {
        self.spec_in_bounds(pos) && !self.spec_blocks_movement_at(pos)
    }

    /// Create an empty time slice.
    pub fn new(t: i32, width: i32, height: i32) -> (r: Self)
        ensures
            r@ == (AbsSlice { t, width, height, entities: Seq::<AbsEntity>::empty() }),
            r.wf(),
    {
        let r = Self { t, width, height, entities: Vec::new() };
        proof {
            assert(r@.entities =~= Seq::<AbsEntity>::empty());
        }
        r
    }

    /// Check if a spatial position is within bounds.
    pub fn in_bounds(&self, pos: SpatialPos) -> (r: bool)
        ensures
            r == self.spec_in_bounds(pos),
    {
        pos.x >= 0 && pos.y >= 0 && pos.x < self.width && pos.y < self.height
    }

    /// The index of the entity with this identifier, if present.
    fn find_index(&self, id: EntityId) -> (r: Option<usize>)
        ensures
            r matches Some(i) ==> i < self.abs_entities().len() && self.abs_entities()[i as int].id
                == id && forall|j: int| 0 <= j < i ==> self.abs_entities()[j].id != id,
            r is None ==> !self.spec_has_entity(id),
    {
        let n = self.entities.len();
        for i in 0..n
            invariant
                n == self.entities@.len(),
                forall|j: int| 0 <= j < i ==> self.abs_entities()[j].id != id,
        {
            if self.entities[i].id == id {
                proof {
                    assert(self.abs_entities()[i as int].id == id);
                }
                return Some(i);
            }
            proof {
                assert(self.abs_entities()[i as int] == self.entities@[i as int]@);
            }
        }
        None
    }

    /// Get entity IDs at a position (returns empty Vec if none).
    pub fn entity_ids_at(&self, pos: SpatialPos) -> (r: Vec<EntityId>)
        ensures
            r@ == spec_ids_at(self.abs_entities(), pos),
    {
        let ghost es = self.abs_entities();
        let mut out: Vec<EntityId> = Vec::new();
        let n = self.entities.len();
        for i in 0..n
            invariant
                n == self.entities@.len(),
                es == self.abs_entities(),
                out@ =~= spec_ids_at(es.subrange(0, i as int), pos),
        {
            proof {
                assert(es.subrange(0, i + 1).drop_last() =~= es.subrange(0, i as int));
                assert(es.subrange(0, i + 1).last() == es[i as int]);
                assert(es[i as int] == self.entities@[i as int]@);
            }
            if self.entities[i].position.x == pos.x && self.entities[i].position.y == pos.y {
                out.push(self.entities[i].id);
            }
        }
        proof {
            assert(es.subrange(0, n as int) =~= es);
        }
        out
    }

    /// Get entities at a position.
    pub fn entities_at(&self, pos: SpatialPos) -> (r: Vec<&Entity>)
        ensures
            r@.map_values(|e: &Entity| e@) == spec_entities_at(self.abs_entities(), pos),
    {
        let ghost es = self.abs_entities();
        let mut out: Vec<&Entity> = Vec::new();
        let n = self.entities.len();
        for i in 0..n
            invariant
                n == self.entities@.len(),
                es == self.abs_entities(),
                out@.map_values(|e: &Entity| e@) =~= spec_entities_at(
                    es.subrange(0, i as int),
                    pos,
                ),
        {
            proof {
                assert(es.subrange(0, i + 1).drop_last() =~= es.subrange(0, i as int));
                assert(es.subrange(0, i + 1).last() == es[i as int]);
                assert(es[i as int] == self.entities@[i as int]@);
            }
            if self.entities[i].position.x == pos.x && self.entities[i].position.y == pos.y {
                let ghost before = out@.map_values(|e: &Entity| e@);
                out.push(&self.entities[i]);
                proof {
                    assert(out@.map_values(|e: &Entity| e@) =~= before.push(es[i as int]));
                }
            }
        }
        proof {
            assert(es.subrange(0, n as int) =~= es);
        }
        out
    }

    /// Get entity by ID.
    pub fn entity(&self, id: EntityId) -> (r: Option<&Entity>)
        requires
            self.wf(),
        ensures
            r is Some <==> self.spec_has_entity(id),
            r matches Some(e) ==> Some(e@) == self.spec_entity(id) && e.id == id,
    {
        match self.find_index(id) {
            Some(i) => {
                proof {
                    let k = spec_index_of_id(self.abs_entities(), id);
                    assert(self.abs_entities()[k].id == id);
                    assert(k == i as int);
                }
                Some(&self.entities[i])
            },
            None => None,
        }
    }

    /// Add an entity to this slice.
    /// If an entity with the same ID already exists, it is overwritten.
    pub fn add_entity(&mut self, entity: Entity)
        requires
            old(self).wf(),
        ensures
            final(self).t == old(self).t,
            final(self).width == old(self).width,
            final(self).height == old(self).height,
            final(self).wf(),
            old(self).spec_has_entity(entity.id) ==> exists|i: int|
                0 <= i < old(self).abs_entities().len() && old(self).abs_entities()[i].id
                    == entity.id && final(self).abs_entities() == old(self).abs_entities().update(
                    i,
                    entity@,
                ),
            !old(self).spec_has_entity(entity.id) ==> final(self).abs_entities() == old(
                self,
            ).abs_entities().push(entity@),
            final(self).spec_entity(entity.id) == Some(entity@),
            forall|other: EntityId|
                other != entity.id ==> #[trigger] final(self).spec_entity(other) == old(
                    self,
                ).spec_entity(other),
    {
        let ghost es = self.abs_entities();
        let ghost ent = entity@;
        let id = entity.id;
        match self.find_index(id) {
            Some(i) => {
                self.entities.set(i, entity);
                proof {
                    assert(final(self).abs_entities() =~= es.update(i as int, ent));
                    lemma_update_keeps_unique(es, i as int, ent);
                    lemma_entity_lookup_after_update(es, i as int, ent);
                }
            },
            None => {
                self.entities.push(entity);
                proof {
                    assert(final(self).abs_entities() =~= es.push(ent));
                    lemma_push_keeps_unique(es, ent);
                    lemma_entity_lookup_after_push(es, ent);
                }
            },
        }
    }

    /// Remove an entity by ID, returns the entity if found.
    pub fn remove_entity(&mut self, id: EntityId) -> (r: Option<Entity>)
        requires
            old(self).wf(),
        ensures
            final(self).t == old(self).t,
            final(self).width == old(self).width,
            final(self).height == old(self).height,
            final(self).wf(),
            r is Some <==> old(self).spec_has_entity(id),
            r matches Some(e) ==> Some(e@) == old(self).spec_entity(id) && exists|i: int|
                0 <= i < old(self).abs_entities().len() && old(self).abs_entities()[i].id == id
                    && final(self).abs_entities() == old(self).abs_entities().remove(i),
            r is None ==> final(self).abs_entities() == old(self).abs_entities(),
            final(self).spec_entity(id) is None,
            forall|other: EntityId|
                other != id ==> #[trigger] final(self).spec_entity(other) == old(self).spec_entity(
                    other,
                ),
    {
        let ghost es = self.abs_entities();
        match self.find_index(id) {
            Some(i) => {
                let removed = self.entities.remove(i);
                proof {
                    assert(final(self).abs_entities() =~= es.remove(i as int));
                    let k = spec_index_of_id(es, id);
                    assert(es[k].id == id);
                    assert(k == i as int);
                    lemma_remove_keeps_unique(es, i as int);
                    lemma_entity_lookup_after_remove(es, i as int);
                }
                Some(removed)
            },
            None => None,
        }
    }

    /// Move an entity to a new spatial position within this slice.
    ///
    /// Updates the entity's position; its `t` coordinate is NOT modified.
    /// Performs no walkability check: callers must validate the target, and
    /// they guarantee that it lies within the grid.
    pub fn move_entity(&mut self, id: EntityId, to: SpatialPos) -> (r: bool)
        requires
            old(self).wf(),
        ensures
            final(self).t == old(self).t,
            final(self).width == old(self).width,
            final(self).height == old(self).height,
            final(self).wf(),
            r == old(self).spec_has_entity(id),
            !r ==> final(self).abs_entities() == old(self).abs_entities(),
            r ==> exists|i: int|
                0 <= i < old(self).abs_entities().len() && old(self).abs_entities()[i].id == id
                    && final(self).abs_entities() == old(self).abs_entities().update(
                    i,
                    (AbsEntity {
                        position: (Position {
                            x: to.x,
                            y: to.y,
                            t: old(self).abs_entities()[i].position.t,
                        }),
                        ..old(self).abs_entities()[i]
                    }),
                ),
            forall|other: EntityId|
                other != id ==> #[trigger] final(self).spec_entity(other) == old(self).spec_entity(
                    other,
                ),
    {
        let ghost es = self.abs_entities();
        match self.find_index(id) {
            Some(i) => {
                let t = self.entities[i].position.t;
                let moved = self.entities[i].at_position(Position::new(to.x, to.y, t));
                let ghost ment = moved@;
                self.entities.set(i, moved);
                proof {
                    assert(final(self).abs_entities() =~= es.update(i as int, ment));
                    lemma_update_keeps_unique(es, i as int, ment);
                    lemma_entity_lookup_after_update(es, i as int, ment);
                }
                true
            },
            None => false,
        }
    }

    /// Check if position blocks movement.
    pub fn blocks_movement_at(&self, pos: SpatialPos) -> (r: bool)
        ensures
            r == self.spec_blocks_movement_at(pos),
    {
        let n = self.entities.len();
        for i in 0..n
            invariant
                n == self.entities@.len(),
                forall|j: int|
                    0 <= j < i ==> !(at_cell(#[trigger] self.abs_entities()[j], pos)
                        && self.abs_entities()[j].blocks_movement()),
        {
            proof {
                assert(self.abs_entities()[i as int] == self.entities@[i as int]@);
            }
            if self.entities[i].position.x == pos.x && self.entities[i].position.y == pos.y
                && self.entities[i].blocks_movement() {
                return true;
            }
        }
        false
    }

    /// Check if position blocks vision.
    pub fn blocks_vision_at(&self, pos: SpatialPos) -> (r: bool)
        ensures
            r == self.spec_blocks_vision_at(pos),
    {
        let n = self.entities.len();
        for i in 0..n
            invariant
                n == self.entities@.len(),
                forall|j: int|
                    0 <= j < i ==> !(at_cell(#[trigger] self.abs_entities()[j], pos)
                        && self.abs_entities()[j].blocks_vision()),
        {
            proof {
                assert(self.abs_entities()[i as int] == self.entities@[i as int]@);
            }
            if self.entities[i].position.x == pos.x && self.entities[i].position.y == pos.y
                && self.entities[i].blocks_vision() {
                return true;
            }
        }
        false
    }

    /// Check if position is walkable (in bounds and not blocked).
    pub fn is_walkable(&self, pos: SpatialPos) -> (r: bool)
        ensures
            r == self.spec_is_walkable(pos),
    {
        self.in_bounds(pos) && !self.blocks_movement_at(pos)
    }

    /// Check if position has a rift.
    pub fn has_rift_at(&self, pos: SpatialPos) -> (r: bool)
        ensures
            r == self.spec_has_rift_at(pos),
    {
        let n = self.entities.len();
        for i in 0..n
            invariant
                n == self.entities@.len(),
                forall|j: int|
                    0 <= j < i ==> !(at_cell(#[trigger] self.abs_entities()[j], pos)
                        && self.abs_entities()[j].is_rift()),
        {
            proof {
                assert(self.abs_entities()[i as int] == self.entities@[i as int]@);
            }
            if self.entities[i].position.x == pos.x && self.entities[i].position.y == pos.y
                && self.entities[i].is_rift() {
                return true;
            }
        }
        false
    }

    /// Check if position is the exit.
    pub fn is_exit_at(&self, pos: SpatialPos) -> (r: bool)
        ensures
            r == self.spec_is_exit_at(pos),
    {
        let n = self.entities.len();
        for i in 0..n
            invariant
                n == self.entities@.len(),
                forall|j: int|
                    0 <= j < i ==> !(at_cell(#[trigger] self.abs_entities()[j], pos)
                        && self.abs_entities()[j].is_exit()),
        {
            proof {
                assert(self.abs_entities()[i as int] == self.entities@[i as int]@);
            }
            if self.entities[i].position.x == pos.x && self.entities[i].position.y == pos.y
                && self.entities[i].is_exit() {
                return true;
            }
        }
        false
    }

    /// Get rift target from a position (the first rift there, if any).
    /// The entities must be structurally valid, so that each rift entity
    /// carries a single rift.
    pub fn rift_target_at(&self, pos: SpatialPos) -> (r: Option<Position>)
        requires
            forall|i: int|
                0 <= i < self.abs_entities().len() ==> (#[trigger] self.abs_entities()[i]).valid(),
        ensures
            r is Some <==> self.spec_has_rift_at(pos),
            r matches Some(tp) ==> tp == spec_first_rift_target(self.abs_entities(), pos),
    {
        let ghost es = self.abs_entities();
        let n = self.entities.len();
        proof {
            assert(es.skip(0) =~= es);
        }
        for i in 0..n
            invariant
                n == self.entities@.len(),
                es == self.abs_entities(),
                forall|j: int|
                    0 <= j < n ==> (#[trigger] es[j]).valid(),
                forall|j: int|
                    0 <= j < i ==> !(at_cell(#[trigger] self.abs_entities()[j], pos)
                        && self.abs_entities()[j].is_rift()),
                spec_first_rift_target(es, pos) == spec_first_rift_target(
                    es.skip(i as int),
                    pos,
                ),
        {
            proof {
                assert(self.abs_entities()[i as int] == self.entities@[i as int]@);
                assert(es.skip(i as int).drop_first() =~= es.skip(i + 1));
                assert(es.skip(i as int)[0] == es[i as int]);
            }
            if self.entities[i].position.x == pos.x && self.entities[i].position.y == pos.y {
                if let Some(data) = self.entities[i].rift_data() {
                    proof {
                        let e = self.abs_entities()[i as int];
                        assert(e.components.contains(AbsComponent::Rift(*data)));
                        crate::entity::lemma_rift_unique(e, *data);
                        assert(spec_first_rift_target(es.skip(i as int), pos)
                            == e.rift_data().target);
                    }
                    return Some(data.target);
                }
            }
        }
        proof {
            assert(es.skip(n as int) =~= Seq::<AbsEntity>::empty());
        }
        None
    }

    /// Get all entities.
    pub fn all_entities(&self) -> (r: &Vec<Entity>)
        ensures
            r@.map_values(|e: Entity| e@) == self.abs_entities(),
    {
        &self.entities
    }

    /// Get all entity IDs.
    pub fn all_entity_ids(&self) -> (r: Vec<EntityId>)
        ensures
            r@.len() == self.abs_entities().len(),
            forall|i: int| 0 <= i < r@.len() ==> r@[i] == self.abs_entities()[i].id,
    {
        let mut out: Vec<EntityId> = Vec::new();
        let n = self.entities.len();
        for i in 0..n
            invariant
                n == self.entities@.len(),
                out@.len() == i,
                forall|j: int| 0 <= j < i ==> out@[j] == self.abs_entities()[j].id,
        {
            proof {
                assert(self.abs_entities()[i as int] == self.entities@[i as int]@);
            }
            out.push(self.entities[i].id);
        }
        out
    }

    /// Get all occupied positions (each cell listed once).
    pub fn occupied_positions(&self) -> (r: Vec<SpatialPos>)
        ensures
            forall|a: int, b: int| 0 <= a < b < r@.len() ==> r@[a] != r@[b],
            forall|p: SpatialPos| #[trigger] r@.contains(p) <==> exists|i: int|
                0 <= i < self.abs_entities().len() && at_cell(self.abs_entities()[i], p),
    {
        let mut out: Vec<SpatialPos> = Vec::new();
        let n = self.entities.len();
        for i in 0..n
            invariant
                n == self.entities@.len(),
                forall|a: int, b: int| 0 <= a < b < out@.len() ==> out@[a] != out@[b],
                forall|p: SpatialPos| #[trigger] out@.contains(p) <==> exists|j: int|
                    0 <= j < i && at_cell(self.abs_entities()[j], p),
        {
            proof {
                assert(self.abs_entities()[i as int] == self.entities@[i as int]@);
            }
            let p = self.entities[i].position.spatial();
            let mut present = false;
            let m = out.len();
            for k in 0..m
                invariant
                    m == out@.len(),
                    present ==> out@.contains(p),
                    !present ==> forall|a: int| 0 <= a < k ==> out@[a] != p,
            {
                if out[k] == p {
                    proof {
                        assert(out@[k as int] == p);
                    }
                    present = true;
                }
            }
            let ghost prev = out@;
            if !present {
                out.push(p);
            }
            proof {
                assert(at_cell(self.abs_entities()[i as int], p));
                if !present {
                    assert forall|q: SpatialPos| #[trigger] out@.contains(q) implies (prev.contains(
                        q,
                    ) || q == p) by {
                        let w = choose|w: int| 0 <= w < out@.len() && out@[w] == q;
                        if w < prev.len() {
                            assert(prev[w] == q);
                        }
                    }
                    assert(out@.contains(p)) by {
                        assert(out@[prev.len() as int] == p);
                    }
                    assert forall|q: SpatialPos| prev.contains(q) implies #[trigger] out@.contains(
                        q,
                    ) by {
                        let w = choose|w: int| 0 <= w < prev.len() && prev[w] == q;
                        assert(out@[w] == q);
                    }
                }
            }
        }
        out
    }

    /// Count entities.
    pub fn entity_count(&self) -> (r: usize)
        ensures
            r == self.abs_entities().len(),
    {
        self.entities.len()
    }

    /// Clear all entities.
    pub fn clear(&mut self)
        ensures
            final(self).t == old(self).t,
            final(self).width == old(self).width,
            final(self).height == old(self).height,
            final(self).abs_entities() =~= Seq::<AbsEntity>::empty(),
            final(self).wf(),
    {
        self.entities.clear();
    }

    /// Find the player entity (the first one, if any).
    pub fn player(&self) -> (r: Option<&Entity>)
        ensures
            r is Some <==> exists|i: int|
                0 <= i < self.abs_entities().len() && self.abs_entities()[i].is_player(),
            r matches Some(e) ==> self.abs_entities().contains(e@) && e@.is_player(),
    {
        let n = self.entities.len();
        for i in 0..n
            invariant
                n == self.entities@.len(),
                forall|j: int| 0 <= j < i ==> !(#[trigger] self.abs_entities()[j]).is_player(),
        {
            proof {
                assert(self.abs_entities()[i as int] == self.entities@[i as int]@);
            }
            if self.entities[i].is_player() {
                proof {
                    assert(self.abs_entities().contains(self.abs_entities()[i as int]));
                }
                return Some(&self.entities[i]);
            }
        }
        None
    }

    /// Find all enemies, in insertion order.
    pub fn enemies(&self) -> (r: Vec<&Entity>)
        ensures
            r@.map_values(|e: &Entity| e@) == spec_enemies(self.abs_entities()),
    {
        let ghost es = self.abs_entities();
        let mut out: Vec<&Entity> = Vec::new();
        let n = self.entities.len();
        for i in 0..n
            invariant
                n == self.entities@.len(),
                es == self.abs_entities(),
                out@.map_values(|e: &Entity| e@) =~= spec_enemies(es.subrange(0, i as int)),
        {
            proof {
                assert(es.subrange(0, i + 1).drop_last() =~= es.subrange(0, i as int));
                assert(es.subrange(0, i + 1).last() == es[i as int]);
                assert(es[i as int] == self.entities@[i as int]@);
            }
            if self.entities[i].is_enemy() {
                let ghost before = out@.map_values(|e: &Entity| e@);
                out.push(&self.entities[i]);
                proof {
                    assert(out@.map_values(|e: &Entity| e@) =~= before.push(es[i as int]));
                }
            }
        }
        proof {
            assert(es.subrange(0, n as int) =~= es);
        }
        out
    }
}

/// Each element of the per-cell entity list is an element of the slice
/// standing on that cell.
pub proof fn lemma_entities_at_member(es: Seq<AbsEntity>, cell: SpatialPos, j: int)
    requires
        0 <= j < spec_entities_at(es, cell).len(),
    ensures
        exists|i: int|
            0 <= i < es.len() && es[i] == spec_entities_at(es, cell)[j] && at_cell(
                #[trigger] es[i],
                cell,
            ),
    decreases es.len(),
{
    if es.len() > 0 {
        if at_cell(es.last(), cell) && j == spec_entities_at(es, cell).len() - 1 {
            assert(es[es.len() - 1] == spec_entities_at(es, cell)[j]);
        } else {
            lemma_entities_at_member(es.drop_last(), cell, j);
            let i = choose|i: int|
                0 <= i < es.drop_last().len() && es.drop_last()[i] == spec_entities_at(
                    es.drop_last(),
                    cell,
                )[j] && at_cell(es.drop_last()[i], cell);
            assert(es[i] == spec_entities_at(es, cell)[j]);
            assert(at_cell(es[i], cell));
        }
    }
}

/// Updating one entry cannot create a duplicate identifier when the new
/// entry keeps the replaced identifier.
pub proof fn lemma_update_keeps_unique(es: Seq<AbsEntity>, i: int, e: AbsEntity)
    requires
        spec_ids_unique(es),
        0 <= i < es.len(),
        es[i].id == e.id,
    ensures
        spec_ids_unique(es.update(i, e)),
{
}

/// Appending an entity with a fresh identifier keeps identifiers unique.
pub proof fn lemma_push_keeps_unique(es: Seq<AbsEntity>, e: AbsEntity)
    requires
        spec_ids_unique(es),
        !spec_has_id(es, e.id),
    ensures
        spec_ids_unique(es.push(e)),
{
    let p = es.push(e);
    assert forall|i: int, j: int| 0 <= i < j < p.len() implies p[i].id != p[j].id by {
        if j == es.len() {
            assert(p[i] == es[i]);
        }
    }
}

/// Removing an entry keeps identifiers unique.
pub proof fn lemma_remove_keeps_unique(es: Seq<AbsEntity>, i: int)
    requires
        spec_ids_unique(es),
        0 <= i < es.len(),
    ensures
        spec_ids_unique(es.remove(i)),
{
    let p = es.remove(i);
    assert forall|a: int, b: int| 0 <= a < b < p.len() implies p[a].id != p[b].id by {
        let a0 = if a < i {
            a
        } else {
            a + 1
        };
        let b0 = if b < i {
            b
        } else {
            b + 1
        };
        assert(p[a] == es[a0]);
        assert(p[b] == es[b0]);
    }
}

/// After an update at the replaced identifier's index, lookups see the new
/// entity there and are unchanged elsewhere.
pub proof fn lemma_entity_lookup_after_update(es: Seq<AbsEntity>, i: int, e: AbsEntity)
    requires
        spec_ids_unique(es),
        0 <= i < es.len(),
        es[i].id == e.id,
    ensures
        spec_entity_with_id(es.update(i, e), e.id) == Some(e),
        forall|other: EntityId|
            other != e.id ==> #[trigger] spec_entity_with_id(es.update(i, e), other)
                == spec_entity_with_id(es, other),
{
    let p = es.update(i, e);
    assert(p[i].id == e.id);
    assert(spec_has_id(p, e.id));
    let k = spec_index_of_id(p, e.id);
    assert(p[k].id == e.id);
    lemma_update_keeps_unique(es, i, e);
    assert(k == i);
    assert forall|other: EntityId| other != e.id implies #[trigger] spec_entity_with_id(p, other)
        == spec_entity_with_id(es, other) by {
        if spec_has_id(es, other) {
            let k0 = spec_index_of_id(es, other);
            assert(es[k0].id == other);
            assert(k0 != i);
            assert(p[k0].id == other);
            assert(spec_has_id(p, other));
            let k1 = spec_index_of_id(p, other);
            assert(p[k1].id == other);
            assert(k1 != i);
            assert(es[k1].id == other);
            assert(k1 == k0);
        } else {
            if spec_has_id(p, other) {
                let k1 = spec_index_of_id(p, other);
                assert(p[k1].id == other);
                assert(k1 != i);
                assert(es[k1].id == other);
                assert(false);
            }
        }
    }
}

/// After a push of a fresh identifier, lookups see the new entity under its
/// identifier and are unchanged elsewhere.
pub proof fn lemma_entity_lookup_after_push(es: Seq<AbsEntity>, e: AbsEntity)
    requires
        spec_ids_unique(es),
        !spec_has_id(es, e.id),
    ensures
        spec_entity_with_id(es.push(e), e.id) == Some(e),
        forall|other: EntityId|
            other != e.id ==> #[trigger] spec_entity_with_id(es.push(e), other)
                == spec_entity_with_id(es, other),
{
    let p = es.push(e);
    assert(p[es.len() as int] == e);
    assert(spec_has_id(p, e.id));
    let k = spec_index_of_id(p, e.id);
    assert(p[k].id == e.id);
    if k < es.len() {
        assert(p[k] == es[k]);
        assert(false);
    }
    assert forall|other: EntityId| other != e.id implies #[trigger] spec_entity_with_id(p, other)
        == spec_entity_with_id(es, other) by {
        if spec_has_id(es, other) {
            let k0 = spec_index_of_id(es, other);
            assert(es[k0].id == other);
            assert(p[k0].id == other);
            assert(spec_has_id(p, other));
            let k1 = spec_index_of_id(p, other);
            assert(p[k1].id == other);
            if k1 == es.len() {
                assert(false);
            }
            assert(es[k1].id == other);
            assert(spec_ids_unique(es));
            assert(k1 == k0);
        } else {
            if spec_has_id(p, other) {
                let k1 = spec_index_of_id(p, other);
                assert(p[k1].id == other);
                if k1 == es.len() {
                    assert(false);
                }
                assert(es[k1].id == other);
                assert(false);
            }
        }
    }
}

/// After a removal, the removed identifier is gone and lookups are unchanged
/// elsewhere.
pub proof fn lemma_entity_lookup_after_remove(es: Seq<AbsEntity>, i: int)
    requires
        spec_ids_unique(es),
        0 <= i < es.len(),
    ensures
        spec_entity_with_id(es.remove(i), es[i].id) is None,
        forall|other: EntityId|
            other != es[i].id ==> #[trigger] spec_entity_with_id(es.remove(i), other)
                == spec_entity_with_id(es, other),
{
    let p = es.remove(i);
    let id = es[i].id;
    if spec_has_id(p, id) {
        let k = spec_index_of_id(p, id);
        assert(p[k].id == id);
        let k0 = if k < i {
            k
        } else {
            k + 1
        };
        assert(p[k] == es[k0]);
        assert(k0 != i ==> es[k0].id != es[i].id);
        assert(false);
    }
    assert forall|other: EntityId| other != id implies #[trigger] spec_entity_with_id(p, other)
        == spec_entity_with_id(es, other) by {
        if spec_has_id(es, other) {
            let k0 = spec_index_of_id(es, other);
            assert(es[k0].id == other);
            assert(k0 != i);
            let pk = if k0 < i {
                k0
            } else {
                k0 - 1
            };
            assert(p[pk] == es[k0]);
            assert(spec_has_id(p, other));
            let k1 = spec_index_of_id(p, other);
            assert(p[k1].id == other);
            let k1o = if k1 < i {
                k1
            } else {
                k1 + 1
            };
            assert(p[k1] == es[k1o]);
            assert(es[k1o].id == other);
            assert(k1o == k0);
        } else {
            if spec_has_id(p, other) {
                let k1 = spec_index_of_id(p, other);
                assert(p[k1].id == other);
                let k1o = if k1 < i {
                    k1
                } else {
                    k1 + 1
                };
                assert(p[k1] == es[k1o]);
                assert(false);
            }
        }
    }
}

} // verus!
