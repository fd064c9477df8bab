//! Entity definitions and factory helpers.

use vstd::prelude::*;

use crate::components::{
    AbsComponent, AbsPatrol, Component, EntityId, PatrolData, RiftData, VisionData,
    component_eq, fresh_entity_id,
};
use crate::position::Position;

verus! {

/// An entity in the game world.
///
/// Each time slice owns its entity instances. The same [`EntityId`] across
/// slices represents the same logical entity (e.g., a wall at t=0 and t=5).
#[derive(Debug)]
pub struct Entity {
    /// Unique identifier (consistent across time slices).
    pub id: EntityId,
    /// Position in space-time.
    pub position: Position,
    /// Components defining behavior.
    pub components: Vec<Component>,
    /// Display name (for debugging, optional).
    pub name: Option<String>,
}

/// Type of entity for quick filtering.
#[derive(Debug, Clone, Copy, PartialEq, Eq, Hash, Structural)]
pub enum EntityType {
    /// Player entity.
    Player,
    /// Enemy with vision.
    Enemy,
    /// Rift teleport.
    Rift,
    /// Exit tile.
    Exit,
    /// Pushable or pullable box.
    Box,
    /// Wall blocks movement and vision.
    Wall,
    /// Floor (no blocking components).
    Floor,
    /// Unrecognized combination.
    Custom,
}

/// Mathematical model of an entity.
pub ghost struct AbsEntity {
    /// Identifier.
    pub id: EntityId,
    /// Position in space-time.
    pub position: Position,
    /// Components, in insertion order.
    pub components: Seq<AbsComponent>,
    /// Display name.
    pub name: Option<Seq<char>>,
}

/// Some component of the sequence blocks movement.
pub open spec fn abs_blocks_movement(c: Seq<AbsComponent>) -> bool {
    exists|i: int| 0 <= i < c.len() && c[i] is BlocksMovement
}

/// Some component of the sequence blocks vision.
pub open spec fn abs_blocks_vision(c: Seq<AbsComponent>) -> bool {
    exists|i: int| 0 <= i < c.len() && c[i] is BlocksVision
}

/// Some component marks the entity as time-persistent.
pub open spec fn abs_is_time_persistent(c: Seq<AbsComponent>) -> bool {
    exists|i: int| 0 <= i < c.len() && c[i] is TimePersistent
}

/// Some component marks the entity as the player.
pub open spec fn abs_is_player(c: Seq<AbsComponent>) -> bool {
    exists|i: int| 0 <= i < c.len() && c[i] is Player
}

/// Some component carries a vision cone (the mark of an enemy).
pub open spec fn abs_is_enemy(c: Seq<AbsComponent>) -> bool {
    exists|i: int| 0 <= i < c.len() && c[i] is VisionCone
}

/// Some component is a rift.
pub open spec fn abs_is_rift(c: Seq<AbsComponent>) -> bool {
    exists|i: int| 0 <= i < c.len() && c[i] is Rift
}

/// Some component is the exit.
pub open spec fn abs_is_exit(c: Seq<AbsComponent>) -> bool {
    exists|i: int| 0 <= i < c.len() && c[i] is Exit
}

/// Some component is pushable.
pub open spec fn abs_is_pushable(c: Seq<AbsComponent>) -> bool {
    exists|i: int| 0 <= i < c.len() && c[i] is Pushable
}

/// Some component is pullable.
pub open spec fn abs_is_pullable(c: Seq<AbsComponent>) -> bool {
    exists|i: int| 0 <= i < c.len() && c[i] is Pullable
}

/// Some component is a patrol.
pub open spec fn abs_has_patrol(c: Seq<AbsComponent>) -> bool {
    exists|i: int| 0 <= i < c.len() && c[i] is Patrol
}

/// Number of rift components.
pub open spec fn abs_count_rifts(c: Seq<AbsComponent>) -> nat
    decreases c.len(),
{
    if c.len() == 0 {
        0
    } else {
        abs_count_rifts(c.drop_last()) + if c.last() is Rift {
            1nat
        } else {
            0nat
        }
    }
}

/// Number of patrol components.
pub open spec fn abs_count_patrols(c: Seq<AbsComponent>) -> nat
    decreases c.len(),
{
    if c.len() == 0 {
        0
    } else {
        abs_count_patrols(c.drop_last()) + if c.last() is Patrol {
            1nat
        } else {
            0nat
        }
    }
}

/// Number of vision-cone components.
pub open spec fn abs_count_visions(c: Seq<AbsComponent>) -> nat
    decreases c.len(),
{
    if c.len() == 0 {
        0
    } else {
        abs_count_visions(c.drop_last()) + if c.last() is VisionCone {
            1nat
        } else {
            0nat
        }
    }
}

/// Structural validity of a component set: the player tag stands alone, an
/// entity carries at most one rift, one patrol and one vision cone, and a
/// patrol path is never empty.
pub open spec fn spec_valid_components(c: Seq<AbsComponent>) -> bool {
    &&& (abs_is_player(c) ==> forall|i: int| 0 <= i < c.len() ==> c[i] is Player)
    &&& abs_count_rifts(c) <= 1
    &&& abs_count_patrols(c) <= 1
    &&& abs_count_visions(c) <= 1
    &&& forall|i: int|
        0 <= i < c.len() && (#[trigger] c[i]) is Patrol ==> c[i]->Patrol_0.path.len() > 0
}

/// Derived classification, by fixed precedence:
/// Player > Enemy > Rift > Exit > Box > Wall/Floor by blocking flags > Custom.
pub open spec fn spec_entity_type(c: Seq<AbsComponent>) -> EntityType {
    if abs_is_player(c) {
        EntityType::Player
    } else if abs_is_enemy(c) {
        EntityType::Enemy
    } else if abs_is_rift(c) {
        EntityType::Rift
    } else if abs_is_exit(c) {
        EntityType::Exit
    } else if abs_is_pushable(c) || abs_is_pullable(c) {
        EntityType::Box
    } else if abs_blocks_movement(c) && abs_blocks_vision(c) {
        EntityType::Wall
    } else if !abs_blocks_movement(c) && !abs_blocks_vision(c) {
        EntityType::Floor
    } else {
        EntityType::Custom
    }
}

impl AbsEntity {
    /// The entity blocks movement.
    pub open spec fn blocks_movement(&self) -> bool {
        abs_blocks_movement(self.components)
    }

    /// The entity blocks vision.
    pub open spec fn blocks_vision(&self) -> bool {
        abs_blocks_vision(self.components)
    }

    /// The entity persists through time.
    pub open spec fn is_time_persistent(&self) -> bool {
        abs_is_time_persistent(self.components)
    }

    /// The entity is the player.
    pub open spec fn is_player(&self) -> bool {
        abs_is_player(self.components)
    }

    /// The entity is an enemy.
    pub open spec fn is_enemy(&self) -> bool {
        abs_is_enemy(self.components)
    }

    /// The entity is a rift.
    pub open spec fn is_rift(&self) -> bool {
        abs_is_rift(self.components)
    }

    /// The entity is the exit.
    pub open spec fn is_exit(&self) -> bool {
        abs_is_exit(self.components)
    }

    /// The entity is pushable.
    pub open spec fn is_pushable(&self) -> bool {
        abs_is_pushable(self.components)
    }

    /// The entity is pullable.
    pub open spec fn is_pullable(&self) -> bool {
        abs_is_pullable(self.components)
    }

    /// The entity's component set is structurally valid.
    pub open spec fn valid(&self) -> bool {
        spec_valid_components(self.components)
    }

    /// The rift data carried by the entity, if any (at most one by validity).
    pub open spec fn rift_data(&self) -> RiftData
        recommends
            self.is_rift(),
    {
        let i = choose|i: int| 0 <= i < self.components.len() && self.components[i] is Rift;
        self.components[i]->Rift_0
    }

    /// The patrol carried by the entity, if any (at most one by validity).
    pub open spec fn patrol_data(&self) -> AbsPatrol
        recommends
            abs_has_patrol(self.components),
    {
        let i = choose|i: int| 0 <= i < self.components.len() && self.components[i] is Patrol;
        self.components[i]->Patrol_0
    }

    /// The vision data carried by the entity, if any (at most one by validity).
    pub open spec fn vision_data(&self) -> VisionData
        recommends
            self.is_enemy(),
    {
        let i = choose|i: int| 0 <= i < self.components.len() && self.components[i] is VisionCone;
        self.components[i]->VisionCone_0
    }
}

impl View for Entity {
    type V = AbsEntity;

    open spec fn view(&self) -> AbsEntity {
        AbsEntity {
            id: self.id,
            position: self.position,
            components: self.spec_components().map_values(|c: Component| c@),
            name: match self.name {
                Some(ref s) => Some(s@),
                None => None,
            },
        }
    }
}

impl Clone for Entity {
    /// Clone preserves the model exactly.
    fn clone(&self) -> (res: Self)
        ensures
            res@ == self@,
    {
        let mut components: Vec<Component> = Vec::new();
        let n = self.components.len();
        for i in 0..n
            invariant
                n == self.components.len(),
                components@.len() == i,
                forall|j: int| 0 <= j < i ==> components@[j]@ == #[trigger] self.components@[j]@,
        {
            components.push(self.components[i].clone());
        }
        let name: Option<String> = match &self.name {
            Some(s) => Some(s.clone()),
            None => None,
        };
        let res = Entity { id: self.id, position: self.position, components, name };
        proof {
            assert(res@.components =~= self@.components);
        }
        res
    }
}

impl Entity {
    /// The raw component sequence (for contracts over the exec values).
    pub open spec fn spec_components(&self) -> Seq<Component> {
        self.components@
    }

    /// Create a new entity with a freshly drawn ID.
    /// The component combination must be structurally valid: an invalid one
    /// is malformed level data and is rejected at specification level.
    pub fn new(position: Position, components: Vec<Component>) -> (r: Self)
        requires
            spec_valid_components(components@.map_values(|c: Component| c@)),
        ensures
            r@ == (AbsEntity {
                id: r.id,
                position,
                components: components@.map_values(|c: Component| c@),
                name: None::<Seq<char>>,
            }),
            r.id != 0,
    {
        Self { id: fresh_entity_id(), position, components, name: None }
    }

    /// Create with a specific ID (for cloning across time slices).
    pub fn with_id(id: EntityId, position: Position, components: Vec<Component>) -> (r: Self)
        requires
            spec_valid_components(components@.map_values(|c: Component| c@)),
        ensures
            r@ == (AbsEntity {
                id,
                position,
                components: components@.map_values(|c: Component| c@),
                name: None::<Seq<char>>,
            }),
    {
        Self { id, position, components, name: None }
    }

    /// Get components (immutable).
    pub fn components(&self) -> (r: &Vec<Component>)
        ensures
            r@ == self.spec_components(),
    {
        &self.components
    }

    /// Check if entity has a component matching the predicate.
    pub fn has<F: Fn(&Component) -> bool>(&self, predicate: F) -> (r: bool)
        requires
            forall|i: int|
                0 <= i < self.spec_components().len() ==> call_requires(
                    predicate,
                    (&self.spec_components()[i],),
                ),
        ensures
            r ==> exists|i: int|
                0 <= i < self.spec_components().len() && call_ensures(
                    predicate,
                    (&self.spec_components()[i],),
                    true,
                ),
            !r ==> forall|i: int|
                0 <= i < self.spec_components().len() ==> call_ensures(
                    predicate,
                    (&self.spec_components()[i],),
                    false,
                ),
    {
        let n = self.components.len();
        for i in 0..n
            invariant
                n == self.spec_components().len(),
                forall|j: int|
                    0 <= j < n ==> call_requires(predicate, (&self.spec_components()[j],)),
                forall|j: int|
                    0 <= j < i ==> call_ensures(predicate, (&self.spec_components()[j],), false),
        {
            if predicate(&self.components[i]) {
                return true;
            }
        }
        false
    }

    /// Check if entity has a specific component variant (deep equality).
    pub fn has_component(&self, component: &Component) -> (r: bool)
        ensures
            r == self@.components.contains(component@),
    {
        let n = self.components.len();
        for i in 0..n
            invariant
                n == self.spec_components().len(),
                forall|j: int| 0 <= j < i ==> self@.components[j] != component@,
        {
            if component_eq(&self.components[i], component) {
                proof {
                    assert(self@.components[i as int] == self.components@[i as int]@);
                }
                return true;
            }
        }
        false
    }

    /// Check if entity blocks movement.
    pub fn blocks_movement(&self) -> (r: bool)
        ensures
            r == self@.blocks_movement(),
    {
        let n = self.components.len();
        for i in 0..n
            invariant
                n == self.spec_components().len(),
                forall|j: int| 0 <= j < i ==> !(self@.components[j] is BlocksMovement),
        {
            if self.components[i].blocks_movement() {
                proof {
                    assert(self@.components[i as int] == self.components@[i as int]@);
                }
                return true;
            }
        }
        false
    }

    /// Check if entity blocks vision.
    pub fn blocks_vision(&self) -> (r: bool)
        ensures
            r == self@.blocks_vision(),
    {
        let n = self.components.len();
        for i in 0..n
            invariant
                n == self.spec_components().len(),
                forall|j: int| 0 <= j < i ==> !(self@.components[j] is BlocksVision),
        {
            if self.components[i].blocks_vision() {
                proof {
                    assert(self@.components[i as int] == self.components@[i as int]@);
                }
                return true;
            }
        }
        false
    }

    /// Check if entity persists through time.
    pub fn is_time_persistent(&self) -> (r: bool)
        ensures
            r == self@.is_time_persistent(),
    {
        let n = self.components.len();
        for i in 0..n
            invariant
                n == self.spec_components().len(),
                forall|j: int| 0 <= j < i ==> !(self@.components[j] is TimePersistent),
        {
            if self.components[i].is_time_persistent() {
                proof {
                    assert(self@.components[i as int] == self.components@[i as int]@);
                }
                return true;
            }
        }
        false
    }

    /// Check if entity is the player.
    pub fn is_player(&self) -> (r: bool)
        ensures
            r == self@.is_player(),
    {
        let n = self.components.len();
        for i in 0..n
            invariant
                n == self.spec_components().len(),
                forall|j: int| 0 <= j < i ==> !(self@.components[j] is Player),
        {
            if matches!(&self.components[i], Component::Player) {
                proof {
                    assert(self@.components[i as int] == self.components@[i as int]@);
                }
                return true;
            }
        }
        false
    }

    /// Check if entity is an enemy (has VisionCone).
    pub fn is_enemy(&self) -> (r: bool)
        ensures
            r == self@.is_enemy(),
    {
        let n = self.components.len();
        for i in 0..n
            invariant
                n == self.spec_components().len(),
                forall|j: int| 0 <= j < i ==> !(self@.components[j] is VisionCone),
        {
            if matches!(&self.components[i], Component::VisionCone(_)) {
                proof {
                    assert(self@.components[i as int] == self.components@[i as int]@);
                }
                return true;
            }
        }
        false
    }

    /// Check if entity is a rift.
    pub fn is_rift(&self) -> (r: bool)
        ensures
            r == self@.is_rift(),
    {
        let n = self.components.len();
        for i in 0..n
            invariant
                n == self.spec_components().len(),
                forall|j: int| 0 <= j < i ==> !(self@.components[j] is Rift),
        {
            if matches!(&self.components[i], Component::Rift(_)) {
                proof {
                    assert(self@.components[i as int] == self.components@[i as int]@);
                }
                return true;
            }
        }
        false
    }

    /// Check if entity is the exit.
    pub fn is_exit(&self) -> (r: bool)
        ensures
            r == self@.is_exit(),
    {
        let n = self.components.len();
        for i in 0..n
            invariant
                n == self.spec_components().len(),
                forall|j: int| 0 <= j < i ==> !(self@.components[j] is Exit),
        {
            if matches!(&self.components[i], Component::Exit) {
                proof {
                    assert(self@.components[i as int] == self.components@[i as int]@);
                }
                return true;
            }
        }
        false
    }

    /// Check if entity is pushable.
    pub fn is_pushable(&self) -> (r: bool)
        ensures
            r == self@.is_pushable(),
    {
        let n = self.components.len();
        for i in 0..n
            invariant
                n == self.spec_components().len(),
                forall|j: int| 0 <= j < i ==> !(self@.components[j] is Pushable),
        {
            if matches!(&self.components[i], Component::Pushable) {
                proof {
                    assert(self@.components[i as int] == self.components@[i as int]@);
                }
                return true;
            }
        }
        false
    }

    /// Check if entity is pullable.
    pub fn is_pullable(&self) -> (r: bool)
        ensures
            r == self@.is_pullable(),
    {
        let n = self.components.len();
        for i in 0..n
            invariant
                n == self.spec_components().len(),
                forall|j: int| 0 <= j < i ==> !(self@.components[j] is Pullable),
        {
            if matches!(&self.components[i], Component::Pullable) {
                proof {
                    assert(self@.components[i as int] == self.components@[i as int]@);
                }
                return true;
            }
        }
        false
    }

    /// Get entity type (uses precedence rules).
    pub fn entity_type(&self) -> (r: EntityType)
        ensures
            r == spec_entity_type(self@.components),
    {
        if self.is_player() {
            EntityType::Player
        } else if self.is_enemy() {
            EntityType::Enemy
        } else if self.is_rift() {
            EntityType::Rift
        } else if self.is_exit() {
            EntityType::Exit
        } else if self.is_pushable() || self.is_pullable() {
            EntityType::Box
        } else {
            let bm = self.blocks_movement();
            let bv = self.blocks_vision();
            if bm && bv {
                EntityType::Wall
            } else if !bm && !bv {
                EntityType::Floor
            } else {
                EntityType::Custom
            }
        }
    }

    /// Get rift data if present (the first rift component).
    pub fn rift_data(&self) -> (r: Option<&RiftData>)
        ensures
            r is Some <==> self@.is_rift(),
            r matches Some(d) ==> self@.components.contains(AbsComponent::Rift(*d)),
    {
        let n = self.components.len();
        for i in 0..n
            invariant
                n == self.spec_components().len(),
                forall|j: int| 0 <= j < i ==> !(self@.components[j] is Rift),
        {
            if let Component::Rift(data) = &self.components[i] {
                proof {
                    assert(self@.components[i as int] == self.components@[i as int]@);
                }
                return Some(data);
            }
        }
        None
    }

    /// Get patrol data if present (the first patrol component).
    pub fn patrol_data(&self) -> (r: Option<&PatrolData>)
        ensures
            r is Some <==> abs_has_patrol(self@.components),
            r matches Some(d) ==> self@.components.contains(AbsComponent::Patrol(d@)),
    {
        let n = self.components.len();
        for i in 0..n
            invariant
                n == self.spec_components().len(),
                forall|j: int| 0 <= j < i ==> !(self@.components[j] is Patrol),
        {
            if let Component::Patrol(data) = &self.components[i] {
                proof {
                    assert(self@.components[i as int] == self.components@[i as int]@);
                }
                return Some(data);
            }
        }
        None
    }

    /// Get vision data if present (the first vision-cone component).
    pub fn vision_data(&self) -> (r: Option<&VisionData>)
        ensures
            r is Some <==> self@.is_enemy(),
            r matches Some(v) ==> self@.components.contains(AbsComponent::VisionCone(*v)),
    {
        let n = self.components.len();
        for i in 0..n
            invariant
                n == self.spec_components().len(),
                forall|j: int| 0 <= j < i ==> !(self@.components[j] is VisionCone),
        {
            if let Component::VisionCone(data) = &self.components[i] {
                proof {
                    assert(self@.components[i as int] == self.components@[i as int]@);
                }
                return Some(data);
            }
        }
        None
    }

    /// Clone to a new position (same ID, new position).
    pub fn at_position(&self, pos: Position) -> (r: Self)
        ensures
            r@ == (AbsEntity { position: pos, ..self@ }),
    {
        let mut r = self.clone();
        r.position = pos;
        r
    }

    /// Clone to next time slice (t + 1), same spatial position.
    pub fn propagate_to_next_time(&self) -> (r: Self)
        requires
            self.position.t < i32::MAX,
        ensures
            r@ == (AbsEntity {
                position: (Position {
                    x: self.position.x,
                    y: self.position.y,
                    t: (self.position.t + 1) as i32,
                }),
                ..self@
            }),
    {
        self.at_time(self.position.t + 1)
    }

    /// Clone to specific time slice, same spatial position.
    pub fn at_time(&self, t: i32) -> (r: Self)
        ensures
            r@ == (AbsEntity {
                position: (Position { x: self.position.x, y: self.position.y, t }),
                ..self@
            }),
    {
        self.at_position(Position::new(self.position.x, self.position.y, t))
    }
}

/// Check a component combination for structural validity.
/// Returns false where the game treats the combination as a fatal
/// configuration error: a player tag beside any other component, or more
/// than one rift, patrol or vision cone.
pub fn validate_components(components: &Vec<Component>) -> (r: bool)
    ensures
        r == spec_valid_components(components@.map_values(|c: Component| c@)),
{
    let ghost cs = components@.map_values(|c: Component| c@);
    let n = components.len();
    let mut has_player = false;
    let mut has_non_player = false;
    let mut empty_patrol = false;
    let mut rifts: usize = 0;
    let mut patrols: usize = 0;
    let mut visions: usize = 0;
    for i in 0..n
        invariant
            n == components@.len(),
            cs == components@.map_values(|c: Component| c@),
            has_player == abs_is_player(cs.subrange(0, i as int)),
            has_non_player == (exists|j: int| 0 <= j < i && !(cs[j] is Player)),
            empty_patrol == (exists|j: int|
                0 <= j < i && (#[trigger] cs[j]) is Patrol && cs[j]->Patrol_0.path.len() == 0),
            rifts == abs_count_rifts(cs.subrange(0, i as int)),
            patrols == abs_count_patrols(cs.subrange(0, i as int)),
            visions == abs_count_visions(cs.subrange(0, i as int)),
            rifts <= i && patrols <= i && visions <= i,
    {
        proof {
            assert(cs.subrange(0, i + 1).drop_last() =~= cs.subrange(0, i as int));
            assert(cs.subrange(0, i + 1).last() == cs[i as int]);
        }
        match &components[i] {
            Component::Player => {
                has_player = true;
            },
            Component::Rift(_) => {
                rifts = rifts + 1;
                has_non_player = true;
            },
            Component::Patrol(data) => {
                patrols = patrols + 1;
                has_non_player = true;
                if data.path.len() == 0 {
                    empty_patrol = true;
                    proof {
                        assert(cs[i as int] is Patrol && cs[i as int]->Patrol_0.path.len() == 0);
                    }
                }
            },
            Component::VisionCone(_) => {
                visions = visions + 1;
                has_non_player = true;
            },
            _ => {
                has_non_player = true;
            },
        }
        proof {
            if abs_is_player(cs.subrange(0, i + 1)) && !abs_is_player(cs.subrange(0, i as int))
                && !(cs[i as int] is Player) {
                assert(false);
            }
        }
    }
    proof {
        assert(cs.subrange(0, n as int) =~= cs);
    }
    !(has_player && has_non_player) && rifts <= 1 && patrols <= 1 && visions <= 1
        && !empty_patrol
}

/// A component sequence without rifts has a rift count of zero.
pub proof fn lemma_no_rifts(c: Seq<AbsComponent>)
    requires
        forall|i: int| 0 <= i < c.len() ==> !(c[i] is Rift),
    ensures
        abs_count_rifts(c) == 0,
    decreases c.len(),
{
    if c.len() > 0 {
        lemma_no_rifts(c.drop_last());
    }
}

/// A component sequence without patrols has a patrol count of zero.
pub proof fn lemma_no_patrols(c: Seq<AbsComponent>)
    requires
        forall|i: int| 0 <= i < c.len() ==> !(c[i] is Patrol),
    ensures
        abs_count_patrols(c) == 0,
    decreases c.len(),
{
    if c.len() > 0 {
        lemma_no_patrols(c.drop_last());
    }
}

/// A component sequence without vision cones has a vision count of zero.
pub proof fn lemma_no_visions(c: Seq<AbsComponent>)
    requires
        forall|i: int| 0 <= i < c.len() ==> !(c[i] is VisionCone),
    ensures
        abs_count_visions(c) == 0,
    decreases c.len(),
{
    if c.len() > 0 {
        lemma_no_visions(c.drop_last());
    }
}

// Factory methods for common entity types.
impl Entity {
    /// Create a wall (blocks movement and vision, time-persistent).
    pub fn wall(position: Position) -> (r: Self)
        ensures
            r@.components =~= seq![
                AbsComponent::BlocksMovement,
                AbsComponent::BlocksVision,
                AbsComponent::TimePersistent,
            ],
            r.position == position,
            r.id != 0,
            r@.id == r.id,
            r@.position == position,
            r@.name is None,
    {
        let components = vec![
            Component::BlocksMovement,
            Component::BlocksVision,
            Component::TimePersistent,
        ];
        proof {
            let cs = components@.map_values(|c: Component| c@);
            assert(cs =~= seq![
                AbsComponent::BlocksMovement,
                AbsComponent::BlocksVision,
                AbsComponent::TimePersistent,
            ]);
            lemma_no_rifts(cs);
            lemma_no_patrols(cs);
            lemma_no_visions(cs);
        }
        Self::new(position, components)
    }

    /// Create a floor (no components, not time-persistent).
    pub fn floor(position: Position) -> (r: Self)
        ensures
            r@.components =~= Seq::<AbsComponent>::empty(),
            r.position == position,
            r.id != 0,
            r@.id == r.id,
            r@.position == position,
            r@.name is None,
    {
        let components: Vec<Component> = Vec::new();
        proof {
            let cs = components@.map_values(|c: Component| c@);
            assert(cs =~= Seq::<AbsComponent>::empty());
            lemma_no_rifts(cs);
            lemma_no_patrols(cs);
            lemma_no_visions(cs);
        }
        Self::new(position, components)
    }

    /// Create the player (not time-persistent: the player's presence is
    /// governed by the world line, never by propagation).
    pub fn player(position: Position) -> (r: Self)
        ensures
            r@.components =~= seq![AbsComponent::Player],
            r.position == position,
            r.id != 0,
            r@.id == r.id,
            r@.position == position,
            r@.name is None,
    {
        let components = vec![Component::Player];
        proof {
            let cs = components@.map_values(|c: Component| c@);
            assert(cs =~= seq![AbsComponent::Player]);
            lemma_no_rifts(cs);
            lemma_no_patrols(cs);
            lemma_no_visions(cs);
        }
        Self::new(position, components)
    }

    /// Create an enemy with patrol and vision (time-persistent).
    /// An empty patrol path is malformed level data.
    pub fn enemy(position: Position, patrol: PatrolData, vision: VisionData) -> (r: Self)
        requires
            patrol@.path.len() > 0,
        ensures
            r@.components =~= seq![
                AbsComponent::Patrol(patrol@),
                AbsComponent::VisionCone(vision),
                AbsComponent::TimePersistent,
            ],
            r.position == position,
            r.id != 0,
            r@.id == r.id,
            r@.position == position,
            r@.name is None,
    {
        let ghost gpatrol = patrol@;
        let components = vec![
            Component::Patrol(patrol),
            Component::VisionCone(vision),
            Component::TimePersistent,
        ];
        proof {
            let cs = components@.map_values(|c: Component| c@);
            assert(cs =~= seq![
                AbsComponent::Patrol(gpatrol),
                AbsComponent::VisionCone(vision),
                AbsComponent::TimePersistent,
            ]);
            lemma_no_rifts(cs);
            assert(cs.drop_last() =~= seq![
                AbsComponent::Patrol(gpatrol),
                AbsComponent::VisionCone(vision),
            ]);
            assert(cs.drop_last().drop_last() =~= seq![AbsComponent::Patrol(gpatrol)]);
            assert(cs.drop_last().drop_last().drop_last() =~= Seq::<AbsComponent>::empty());
            assert(abs_count_patrols(cs.drop_last().drop_last().drop_last()) == 0);
            assert(abs_count_patrols(cs.drop_last().drop_last()) == 1);
            assert(abs_count_patrols(cs.drop_last()) == 1);
            assert(abs_count_patrols(cs) == 1);
            assert(abs_count_visions(cs.drop_last().drop_last().drop_last()) == 0);
            assert(abs_count_visions(cs.drop_last().drop_last()) == 0);
            assert(abs_count_visions(cs.drop_last()) == 1);
            assert(abs_count_visions(cs) == 1);
        }
        Self::new(position, components)
    }

    /// Create a pushable box (blocks movement, time-persistent).
    pub fn pushable_box(position: Position) -> (r: Self)
        ensures
            r@.components =~= seq![
                AbsComponent::Pushable,
                AbsComponent::BlocksMovement,
                AbsComponent::TimePersistent,
            ],
            r.position == position,
            r.id != 0,
            r@.id == r.id,
            r@.position == position,
            r@.name is None,
    {
        let components = vec![
            Component::Pushable,
            Component::BlocksMovement,
            Component::TimePersistent,
        ];
        proof {
            let cs = components@.map_values(|c: Component| c@);
            assert(cs =~= seq![
                AbsComponent::Pushable,
                AbsComponent::BlocksMovement,
                AbsComponent::TimePersistent,
            ]);
            lemma_no_rifts(cs);
            lemma_no_patrols(cs);
            lemma_no_visions(cs);
        }
        Self::new(position, components)
    }

    /// Create a pullable (and pushable) box (blocks movement, time-persistent).
    pub fn pullable_box(position: Position) -> (r: Self)
        ensures
            r@.components =~= seq![
                AbsComponent::Pushable,
                AbsComponent::Pullable,
                AbsComponent::BlocksMovement,
                AbsComponent::TimePersistent,
            ],
            r.position == position,
            r.id != 0,
            r@.id == r.id,
            r@.position == position,
            r@.name is None,
    {
        let components = vec![
            Component::Pushable,
            Component::Pullable,
            Component::BlocksMovement,
            Component::TimePersistent,
        ];
        proof {
            let cs = components@.map_values(|c: Component| c@);
            assert(cs =~= seq![
                AbsComponent::Pushable,
                AbsComponent::Pullable,
                AbsComponent::BlocksMovement,
                AbsComponent::TimePersistent,
            ]);
            lemma_no_rifts(cs);
            lemma_no_patrols(cs);
            lemma_no_visions(cs);
        }
        Self::new(position, components)
    }

    /// Create a rift (time-persistent: it exists at all future time slices).
    pub fn rift(position: Position, target: Position, bidirectional: bool) -> (r: Self)
        ensures
            r@.components =~= seq![
                AbsComponent::Rift(RiftData { target, bidirectional }),
                AbsComponent::TimePersistent,
            ],
            r.position == position,
            r.id != 0,
            r@.id == r.id,
            r@.position == position,
            r@.name is None,
    {
        let rift = if bidirectional {
            RiftData::bidirectional(target)
        } else {
            RiftData::one_way(target)
        };
        let components = vec![Component::Rift(rift), Component::TimePersistent];
        proof {
            let cs = components@.map_values(|c: Component| c@);
            assert(cs =~= seq![
                AbsComponent::Rift(RiftData { target, bidirectional }),
                AbsComponent::TimePersistent,
            ]);
            assert(cs.drop_last() =~= seq![AbsComponent::Rift(RiftData { target, bidirectional })]);
            assert(cs.drop_last().drop_last() =~= Seq::<AbsComponent>::empty());
            assert(abs_count_rifts(cs.drop_last().drop_last()) == 0);
            assert(abs_count_rifts(cs.drop_last()) == 1);
            assert(abs_count_rifts(cs) == 1);
            lemma_no_patrols(cs);
            lemma_no_visions(cs);
        }
        Self::new(position, components)
    }

    /// Create the exit (time-persistent).
    pub fn exit(position: Position) -> (r: Self)
        ensures
            r@.components =~= seq![AbsComponent::Exit, AbsComponent::TimePersistent],
            r.position == position,
            r.id != 0,
            r@.id == r.id,
            r@.position == position,
            r@.name is None,
    {
        let components = vec![Component::Exit, Component::TimePersistent];
        proof {
            let cs = components@.map_values(|c: Component| c@);
            assert(cs =~= seq![AbsComponent::Exit, AbsComponent::TimePersistent]);
            lemma_no_rifts(cs);
            lemma_no_patrols(cs);
            lemma_no_visions(cs);
        }
        Self::new(position, components)
    }
}

/// Builder for creating entities with custom component combinations.
pub struct EntityBuilder {
    id: Option<EntityId>,
    position: Position,
    components: Vec<Component>,
    name: Option<String>,
}

impl EntityBuilder {
    /// The identifier chosen so far, if any.
    pub closed spec fn spec_id(&self) -> Option<EntityId> {
        self.id
    }

    /// The position the entity will be built at.
    pub closed spec fn spec_position(&self) -> Position {
        self.position
    }

    /// The components accumulated so far, as their models.
    pub closed spec fn spec_components(&self) -> Seq<AbsComponent> {
        self.components@.map_values(|c: Component| c@)
    }

    /// The display name chosen so far, if any.
    pub closed spec fn spec_name(&self) -> Option<Seq<char>> {
        match self.name {
            Some(ref s) => Some(s@),
            None => None,
        }
    }

    /// Create a new builder for the given position.
    pub fn new(position: Position) -> (r: Self)
        ensures
            r.spec_id() is None,
            r.spec_position() == position,
            r.spec_components() =~= Seq::<AbsComponent>::empty(),
            r.spec_name() is None,
    {
        let r = Self { id: None, position, components: Vec::new(), name: None };
        proof {
            assert(r.spec_components() =~= Seq::<AbsComponent>::empty());
        }
        r
    }

    /// Set a specific entity ID.
    pub fn with_id(self, id: EntityId) -> (r: Self)
        ensures
            r.spec_id() == Some(id),
            r.spec_position() == self.spec_position(),
            r.spec_components() == self.spec_components(),
            r.spec_name() == self.spec_name(),
    {
        Self { id: Some(id), ..self }
    }

    /// Set a display name.
    pub fn with_name(self, name: &str) -> (r: Self)
        ensures
            r.spec_id() == self.spec_id(),
            r.spec_position() == self.spec_position(),
            r.spec_components() == self.spec_components(),
            r.spec_name() == Some(name@),
    {
        Self { name: Some(name.to_owned()), ..self }
    }

    /// Add a component.
    pub fn with_component(self, component: Component) -> (r: Self)
        ensures
            r.spec_id() == self.spec_id(),
            r.spec_position() == self.spec_position(),
            r.spec_components() =~= self.spec_components().push(component@),
            r.spec_name() == self.spec_name(),
    {
        let mut components = self.components;
        components.push(component);
        let r = Self { components, ..self };
        proof {
            assert(r.spec_components() =~= self.spec_components().push(component@));
        }
        r
    }

    /// Add BlocksMovement.
    pub fn blocking(self) -> (r: Self)
        ensures
            r.spec_id() == self.spec_id(),
            r.spec_position() == self.spec_position(),
            r.spec_components() =~= self.spec_components().push(AbsComponent::BlocksMovement),
            r.spec_name() == self.spec_name(),
    {
        self.with_component(Component::BlocksMovement)
    }

    /// Add BlocksVision.
    pub fn opaque(self) -> (r: Self)
        ensures
            r.spec_id() == self.spec_id(),
            r.spec_position() == self.spec_position(),
            r.spec_components() =~= self.spec_components().push(AbsComponent::BlocksVision),
            r.spec_name() == self.spec_name(),
    {
        self.with_component(Component::BlocksVision)
    }

    /// Add TimePersistent.
    pub fn persistent(self) -> (r: Self)
        ensures
            r.spec_id() == self.spec_id(),
            r.spec_position() == self.spec_position(),
            r.spec_components() =~= self.spec_components().push(AbsComponent::TimePersistent),
            r.spec_name() == self.spec_name(),
    {
        self.with_component(Component::TimePersistent)
    }

    /// Add Pushable.
    pub fn pushable(self) -> (r: Self)
        ensures
            r.spec_id() == self.spec_id(),
            r.spec_position() == self.spec_position(),
            r.spec_components() =~= self.spec_components().push(AbsComponent::Pushable),
            r.spec_name() == self.spec_name(),
    {
        self.with_component(Component::Pushable)
    }

    /// Add Pullable.
    pub fn pullable(self) -> (r: Self)
        ensures
            r.spec_id() == self.spec_id(),
            r.spec_position() == self.spec_position(),
            r.spec_components() =~= self.spec_components().push(AbsComponent::Pullable),
            r.spec_name() == self.spec_name(),
    {
        self.with_component(Component::Pullable)
    }

    /// Build the entity. The accumulated component combination must be
    /// structurally valid.
    pub fn build(self) -> (r: Entity)
        requires
            spec_valid_components(self.spec_components()),
        ensures
            r@.components == self.spec_components(),
            r.position == self.spec_position(),
            r@.position == self.spec_position(),
            r@.name == self.spec_name(),
            self.spec_id() matches Some(id) ==> r.id == id,
            r@.id == r.id,
    {
        let mut entity = match self.id {
            Some(id) => Entity::with_id(id, self.position, self.components),
            None => Entity::new(self.position, self.components),
        };
        entity.name = self.name;
        entity
    }
}

/// With at most one patrol component, any patrol the components contain is
/// the entity's patrol.
pub proof fn lemma_patrol_unique(e: AbsEntity, d: AbsPatrol)
    requires
        spec_valid_components(e.components),
        e.components.contains(AbsComponent::Patrol(d)),
    ensures
        abs_has_patrol(e.components),
        e.patrol_data() == d,
{
    let i = choose|i: int| 0 <= i < e.components.len() && e.components[i] == AbsComponent::Patrol(d);
    assert(e.components[i] is Patrol);
    let j = choose|j: int| 0 <= j < e.components.len() && e.components[j] is Patrol;
    assert(e.components[j] is Patrol);
    if i != j {
        if i < j {
            lemma_two_patrols(e.components, i, j);
        } else {
            lemma_two_patrols(e.components, j, i);
        }
    }
}

/// With at most one vision cone, any vision data the components contain is
/// the entity's vision data.
pub proof fn lemma_vision_unique(e: AbsEntity, v: VisionData)
    requires
        spec_valid_components(e.components),
        e.components.contains(AbsComponent::VisionCone(v)),
    ensures
        e.is_enemy(),
        e.vision_data() == v,
{
    let i = choose|i: int|
        0 <= i < e.components.len() && e.components[i] == AbsComponent::VisionCone(v);
    assert(e.components[i] is VisionCone);
    let j = choose|j: int| 0 <= j < e.components.len() && e.components[j] is VisionCone;
    assert(e.components[j] is VisionCone);
    if i != j {
        if i < j {
            lemma_two_visions(e.components, i, j);
        } else {
            lemma_two_visions(e.components, j, i);
        }
    }
}

/// With at most one rift, any rift data the components contain is the
/// entity's rift data.
pub proof fn lemma_rift_unique(e: AbsEntity, d: RiftData)
    requires
        spec_valid_components(e.components),
        e.components.contains(AbsComponent::Rift(d)),
    ensures
        e.is_rift(),
        e.rift_data() == d,
{
    let i = choose|i: int| 0 <= i < e.components.len() && e.components[i] == AbsComponent::Rift(d);
    assert(e.components[i] is Rift);
    let j = choose|j: int| 0 <= j < e.components.len() && e.components[j] is Rift;
    assert(e.components[j] is Rift);
    if i != j {
        if i < j {
            lemma_two_rifts(e.components, i, j);
        } else {
            lemma_two_rifts(e.components, j, i);
        }
    }
}

proof fn lemma_one_patrol(c: Seq<AbsComponent>, i: int)
    requires
        0 <= i < c.len(),
        c[i] is Patrol,
    ensures
        abs_count_patrols(c) >= 1,
    decreases c.len(),
{
    if i < c.len() - 1 {
        lemma_one_patrol(c.drop_last(), i);
    }
}

proof fn lemma_two_patrols(c: Seq<AbsComponent>, i: int, j: int)
    requires
        0 <= i < j < c.len(),
        c[i] is Patrol,
        c[j] is Patrol,
    ensures
        abs_count_patrols(c) >= 2,
    decreases c.len(),
{
    if j == c.len() - 1 {
        lemma_one_patrol(c.drop_last(), i);
    } else {
        lemma_two_patrols(c.drop_last(), i, j);
    }
}

proof fn lemma_one_vision(c: Seq<AbsComponent>, i: int)
    requires
        0 <= i < c.len(),
        c[i] is VisionCone,
    ensures
        abs_count_visions(c) >= 1,
    decreases c.len(),
{
    if i < c.len() - 1 {
        lemma_one_vision(c.drop_last(), i);
    }
}

proof fn lemma_two_visions(c: Seq<AbsComponent>, i: int, j: int)
    requires
        0 <= i < j < c.len(),
        c[i] is VisionCone,
        c[j] is VisionCone,
    ensures
        abs_count_visions(c) >= 2,
    decreases c.len(),
{
    if j == c.len() - 1 {
        lemma_one_vision(c.drop_last(), i);
    } else {
        lemma_two_visions(c.drop_last(), i, j);
    }
}

proof fn lemma_one_rift(c: Seq<AbsComponent>, i: int)
    requires
        0 <= i < c.len(),
        c[i] is Rift,
    ensures
        abs_count_rifts(c) >= 1,
    decreases c.len(),
{
    if i < c.len() - 1 {
        lemma_one_rift(c.drop_last(), i);
    }
}

proof fn lemma_two_rifts(c: Seq<AbsComponent>, i: int, j: int)
    requires
        0 <= i < j < c.len(),
        c[i] is Rift,
        c[j] is Rift,
    ensures
        abs_count_rifts(c) >= 2,
    decreases c.len(),
{
    if j == c.len() - 1 {
        lemma_one_rift(c.drop_last(), i);
    } else {
        lemma_two_rifts(c.drop_last(), i, j);
    }
}

/// A structurally valid player entity is neither pushable nor pullable:
/// the player tag excludes every other component.
pub proof fn lemma_player_not_movable(e: AbsEntity)
    requires
        e.valid(),
        e.is_player(),
    ensures
        !e.is_pushable(),
        !e.is_pullable(),
{
    if e.is_pushable() {
        let i = choose|i: int| 0 <= i < e.components.len() && e.components[i] is Pushable;
        assert(e.components[i] is Player);
    }
    if e.is_pullable() {
        let i = choose|i: int| 0 <= i < e.components.len() && e.components[i] is Pullable;
        assert(e.components[i] is Player);
    }
}

/// Priority of an entity type when several entities share a cell and a single
/// classification must be chosen (higher wins).
pub fn entity_priority(entity_type: EntityType) -> (r: u8)
    ensures
        r == (match entity_type {
            EntityType::Box => 6u8,
            EntityType::Enemy => 5u8,
            EntityType::Rift => 4u8,
            EntityType::Exit => 3u8,
            EntityType::Wall => 2u8,
            EntityType::Floor => 1u8,
            EntityType::Custom => 0u8,
            EntityType::Player => 7u8,
        }),
{
    match entity_type {
        EntityType::Box => 6,
        EntityType::Enemy => 5,
        EntityType::Rift => 4,
        EntityType::Exit => 3,
        EntityType::Wall => 2,
        EntityType::Floor => 1,
        EntityType::Custom => 0,
        EntityType::Player => 7,
    }
}

} // verus!
