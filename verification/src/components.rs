//! Component definitions and data.

use vstd::prelude::*;

use crate::position::{Direction, Position, SpatialPos};

verus! {

/// Unique identifier for entities. Consistent across time slices for the
/// same logical entity. Freshly created entities draw a random identifier.
pub type EntityId = u128;

/// Relies on uuid::Uuid::new_v4 / Uuid::as_u128: a version-4 UUID always has
/// its version bits set, so its 128-bit value is never zero.
#[verifier::external_body]
pub(crate) fn fresh_entity_id() -> (r: EntityId)
    ensures
        r != 0,
{
    uuid::Uuid::new_v4().as_u128()
}

/// All possible components an entity can have.
#[derive(Debug, PartialEq)]
pub enum Component {
    /// Blocks other entities from occupying this space.
    BlocksMovement,
    /// Blocks enemy vision (line of sight).
    BlocksVision,
    /// Can be pushed by the player.
    Pushable,
    /// Can be pulled by the player.
    Pullable,
    /// Propagates forward through time automatically.
    TimePersistent,
    /// Follows a deterministic patrol path (enemies).
    Patrol(PatrolData),
    /// Emits a vision cone for detection (enemies).
    VisionCone(VisionData),
    /// Teleports player to target position when activated.
    Rift(RiftData),
    /// Marks this as the level exit (win condition).
    Exit,
    /// Marks this as the player (exactly one per level).
    Player,
}

/// Data for patrol behavior.
#[derive(Debug, PartialEq)]
pub struct PatrolData {
    /// Sequence of spatial positions to visit (must be non-empty).
    pub path: Vec<SpatialPos>,
    /// Whether to loop back to start (true) or stop at end (false).
    pub loops: bool,
}

/// Data for vision cone (light cone detection).
#[derive(Debug, Clone, Copy, PartialEq, Eq, Hash, Structural)]
pub struct VisionData {
    /// Speed of light in tiles per turn (e.g., 3 means sees 3 tiles away instantly).
    pub light_speed: u32,
    /// Direction the enemy is facing (affects FOV center).
    pub facing: Direction,
    /// Field of view in degrees (90 for quarter circle, 360 for omnidirectional).
    pub fov_degrees: u32,
}

/// Data for rift teleportation.
#[derive(Debug, Clone, Copy, PartialEq, Eq, Hash, Structural)]
pub struct RiftData {
    /// Target position (x, y, t) - can jump in time.
    pub target: Position,
    /// Whether player can travel both directions.
    pub bidirectional: bool,
}

/// Mathematical model of a patrol: the path as a sequence plus the loop flag.
pub ghost struct AbsPatrol {
    /// The waypoints, in order.
    pub path: Seq<SpatialPos>,
    /// Whether the patrol loops.
    pub loops: bool,
}

/// Mathematical model of a component.
pub ghost enum AbsComponent {
    /// Blocks movement.
    BlocksMovement,
    /// Blocks vision.
    BlocksVision,
    /// Pushable.
    Pushable,
    /// Pullable.
    Pullable,
    /// Propagates through time.
    TimePersistent,
    /// Patrol behaviour.
    Patrol(AbsPatrol),
    /// Vision cone.
    VisionCone(VisionData),
    /// Rift teleport.
    Rift(RiftData),
    /// Level exit.
    Exit,
    /// The player.
    Player,
}

impl View for PatrolData {
    type V = AbsPatrol;

    open spec fn view(&self) -> AbsPatrol {
        AbsPatrol { path: self.path@, loops: self.loops }
    }
}

impl View for Component {
    type V = AbsComponent;

    open spec fn view(&self) -> AbsComponent {
        match self {
            Component::BlocksMovement => AbsComponent::BlocksMovement,
            Component::BlocksVision => AbsComponent::BlocksVision,
            Component::Pushable => AbsComponent::Pushable,
            Component::Pullable => AbsComponent::Pullable,
            Component::TimePersistent => AbsComponent::TimePersistent,
            Component::Patrol(d) => AbsComponent::Patrol(d@),
            Component::VisionCone(v) => AbsComponent::VisionCone(*v),
            Component::Rift(r) => AbsComponent::Rift(*r),
            Component::Exit => AbsComponent::Exit,
            Component::Player => AbsComponent::Player,
        }
    }
}

impl Clone for PatrolData {
    /// Clone preserves the model exactly.
    fn clone(&self) -> (res: Self)
        ensures
            res@ == self@,
    {
        let mut path: Vec<SpatialPos> = Vec::new();
        let n = self.path.len();
        for i in 0..n
            invariant
                n == self.path.len(),
                path@ =~= self.path@.subrange(0, i as int),
        {
            path.push(self.path[i]);
        }
        proof {
            assert(path@ =~= self.path@);
        }
        PatrolData { path, loops: self.loops }
    }
}

impl Clone for Component {
    /// Clone preserves the model exactly.
    fn clone(&self) -> (res: Self)
        ensures
            res@ == self@,
    {
        match self {
            Component::BlocksMovement => Component::BlocksMovement,
            Component::BlocksVision => Component::BlocksVision,
            Component::Pushable => Component::Pushable,
            Component::Pullable => Component::Pullable,
            Component::TimePersistent => Component::TimePersistent,
            Component::Patrol(d) => Component::Patrol(d.clone()),
            Component::VisionCone(v) => Component::VisionCone(*v),
            Component::Rift(r) => Component::Rift(*r),
            Component::Exit => Component::Exit,
            Component::Player => Component::Player,
        }
    }
}

/// Deep equality of two components, decided executably.
pub fn component_eq(a: &Component, b: &Component) -> (r: bool)
    ensures
        r == (a@ == b@),
{
    match (a, b) {
        (Component::BlocksMovement, Component::BlocksMovement) => true,
        (Component::BlocksVision, Component::BlocksVision) => true,
        (Component::Pushable, Component::Pushable) => true,
        (Component::Pullable, Component::Pullable) => true,
        (Component::TimePersistent, Component::TimePersistent) => true,
        (Component::Patrol(d1), Component::Patrol(d2)) => patrol_eq(d1, d2),
        (Component::VisionCone(v1), Component::VisionCone(v2)) => v1 == v2,
        (Component::Rift(r1), Component::Rift(r2)) => r1 == r2,
        (Component::Exit, Component::Exit) => true,
        (Component::Player, Component::Player) => true,
        _ => false,
    }
}

fn patrol_eq(a: &PatrolData, b: &PatrolData) -> (r: bool)
    ensures
        r == (a@ == b@),
{
    if a.loops != b.loops {
        return false;
    }
    if a.path.len() != b.path.len() {
        proof {
            assert(a@.path.len() != b@.path.len());
        }
        return false;
    }
    let n = a.path.len();
    for i in 0..n
        invariant
            n == a.path.len() == b.path.len(),
            forall|j: int| 0 <= j < i ==> a.path@[j] == b.path@[j],
    {
        if a.path[i] != b.path[i] {
            return false;
        }
    }
    proof {
        assert(a@.path =~= b@.path);
    }
    true
}

impl Component {
    /// Check if this component blocks movement.
    pub fn blocks_movement(&self) -> (r: bool)
        ensures
            r == (self@ is BlocksMovement),
    {
        matches!(self, Component::BlocksMovement)
    }

    /// Check if this component blocks vision.
    pub fn blocks_vision(&self) -> (r: bool)
        ensures
            r == (self@ is BlocksVision),
    {
        matches!(self, Component::BlocksVision)
    }

    /// Check if this component marks entity as time-persistent.
    pub fn is_time_persistent(&self) -> (r: bool)
        ensures
            r == (self@ is TimePersistent),
    {
        matches!(self, Component::TimePersistent)
    }
}

/// The waypoint a patrol occupies at time `t`: index `t % len` for a looping
/// patrol, `min(t, len - 1)` for one that freezes at its last waypoint.
pub open spec fn spec_patrol_position_at(p: AbsPatrol, t: int) -> SpatialPos {
    if p.loops {
        p.path[t % p.path.len() as int]
    } else if t < p.path.len() - 1 {
        p.path[t]
    } else {
        p.path[p.path.len() - 1]
    }
}

impl PatrolData {
    /// Create a new patrol path. The path must be non-empty: an empty path is
    /// malformed level data.
    pub fn new(path: Vec<SpatialPos>, loops: bool) -> (r: Self)
        requires
            path@.len() > 0,
        ensures
            r@ == (AbsPatrol { path: path@, loops }),
    {
        Self { path, loops }
    }

    /// Get position at time t (deterministic computation).
    /// The caller guarantees non-negative time.
    pub fn position_at(&self, t: i32) -> (r: SpatialPos)
        requires
            t >= 0,
            self@.path.len() > 0,
        ensures
            r == spec_patrol_position_at(self@, t as int),
    {
        let len = self.path.len();
        let index = if self.loops {
            (t as usize) % len
        } else {
            let tu = t as usize;
            if tu < len - 1 {
                tu
            } else {
                len - 1
            }
        };
        self.path[index]
    }

    /// Get the path length.
    pub fn len(&self) -> (r: usize)
        ensures
            r == self@.path.len(),
    {
        self.path.len()
    }

    /// Returns true if the path is empty.
    pub fn is_empty(&self) -> (r: bool)
        ensures
            r == (self@.path.len() == 0),
    {
        self.path.is_empty()
    }
}

impl VisionData {
    /// Create with default FOV (90 degrees, forward-facing cone).
    pub fn new(light_speed: u32, facing: Direction) -> (r: Self)
        ensures
            r == (VisionData { light_speed, facing, fov_degrees: 90u32 }),
    {
        Self::with_fov(light_speed, facing, 90)
    }

    /// Create with custom FOV.
    pub fn with_fov(light_speed: u32, facing: Direction, fov_degrees: u32) -> (r: Self)
        ensures
            r == (VisionData { light_speed, facing, fov_degrees }),
    {
        Self { light_speed, facing, fov_degrees }
    }

    /// Create omnidirectional vision (360 degrees).
    pub fn omnidirectional(light_speed: u32) -> (r: Self)
        ensures
            r == (VisionData { light_speed, facing: Direction::North, fov_degrees: 360u32 }),
    {
        Self::with_fov(light_speed, Direction::North, 360)
    }
}

impl RiftData {
    /// Create a one-way rift.
    pub fn one_way(target: Position) -> (r: Self)
        ensures
            r == (RiftData { target, bidirectional: false }),
    {
        Self { target, bidirectional: false }
    }

    /// Create a bidirectional rift.
    pub fn bidirectional(target: Position) -> (r: Self)
        ensures
            r == (RiftData { target, bidirectional: true }),
    {
        Self { target, bidirectional: true }
    }
}

} // verus!
