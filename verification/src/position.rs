//! Position and spatial math utilities.

use vstd::prelude::*;

verus! {

/// A position in the 3D Space-Time Cube.
///
/// Valid ranges (enforced by the cube, not by this type):
/// `0 <= x < width`, `0 <= y < height`, `0 <= t < time_depth`.
#[derive(Debug, Clone, Copy, PartialEq, Eq, Hash, Structural)]
pub struct Position {
    /// X coordinate.
    pub x: i32,
    /// Y coordinate.
    pub y: i32,
    /// Time coordinate.
    pub t: i32,
}

/// A 2D spatial position (no time component).
#[derive(Debug, Clone, Copy, PartialEq, Eq, Hash, Structural)]
pub struct SpatialPos {
    /// X coordinate.
    pub x: i32,
    /// Y coordinate.
    pub y: i32,
}

/// Cardinal directions for movement (no diagonals).
#[derive(Debug, Clone, Copy, PartialEq, Eq, Hash, Structural)]
pub enum Direction {
    /// y - 1
    North,
    /// y + 1
    South,
    /// x + 1
    East,
    /// x - 1
    West,
}

/// Absolute value of a mathematical integer.
pub open spec fn abs_int(a: int) -> int {
    if a >= 0 {
        a
    } else {
        -a
    }
}

/// The unit delta of a direction, as mathematical integers.
pub open spec fn spec_delta(dir: Direction) -> (int, int) {
    match dir {
        Direction::North => (0int, -1int),
        Direction::South => (0int, 1int),
        Direction::East => (1int, 0int),
        Direction::West => (-1int, 0int),
    }
}

/// The direction pointing the opposite way.
pub open spec fn spec_opposite(dir: Direction) -> Direction {
    match dir {
        Direction::North => Direction::South,
        Direction::South => Direction::North,
        Direction::East => Direction::West,
        Direction::West => Direction::East,
    }
}

/// Spatial Manhattan distance between two space-time positions (ignores `t`).
pub open spec fn spec_manhattan(a: Position, b: Position) -> int {
    abs_int(a.x - b.x) + abs_int(a.y - b.y)
}

/// Manhattan distance between two spatial positions.
pub open spec fn spec_manhattan_spatial(a: SpatialPos, b: SpatialPos) -> int {
    abs_int(a.x - b.x) + abs_int(a.y - b.y)
}

/// A causal step: time advances by exactly one and the spatial cell is the
/// same or a cardinal neighbour.
pub open spec fn spec_is_valid_step(from: Position, to: Position) -> bool {
    to.t == from.t + 1 && spec_manhattan(from, to) <= 1
}

/// Absolute difference of two `i32` values, computed without overflow.
fn abs_diff_u32(a: i32, b: i32) -> (r: u32)
    ensures
        r == abs_int(a - b),
{
    let wide: i64 = a as i64 - b as i64;
    if wide >= 0 {
        wide as u32
    } else {
        (-wide) as u32
    }
}

impl Position {
    /// Create a new position.
    pub fn new(x: i32, y: i32, t: i32) -> (r: Self)
        ensures
            r == (Position { x, y, t }),
    {
        Self { x, y, t }
    }

    /// Get the spatial component (x, y).
    pub fn spatial(&self) -> (r: SpatialPos)
        ensures
            r == (SpatialPos { x: self.x, y: self.y }),
    {
        SpatialPos::new(self.x, self.y)
    }

    /// Move in a direction (time unchanged).
    pub fn move_dir(&self, dir: Direction) -> (r: Self)
        requires
            i32::MIN <= self.x + spec_delta(dir).0 <= i32::MAX,
            i32::MIN <= self.y + spec_delta(dir).1 <= i32::MAX,
        ensures
            r == (Position {
                x: (self.x + spec_delta(dir).0) as i32,
                y: (self.y + spec_delta(dir).1) as i32,
                t: self.t,
            }),
    {
        let (dx, dy) = dir.delta();
        Self::new(self.x + dx, self.y + dy, self.t)
    }

    /// Advance time by 1 (position unchanged).
    pub fn tick(&self) -> (r: Self)
        requires
            self.t < i32::MAX,
        ensures
            r == (Position { x: self.x, y: self.y, t: (self.t + 1) as i32 }),
    {
        Self::new(self.x, self.y, self.t + 1)
    }

    /// Move in direction AND advance time (standard game move).
    pub fn step(&self, dir: Direction) -> (r: Self)
        requires
            i32::MIN <= self.x + spec_delta(dir).0 <= i32::MAX,
            i32::MIN <= self.y + spec_delta(dir).1 <= i32::MAX,
            self.t < i32::MAX,
        ensures
            r == (Position {
                x: (self.x + spec_delta(dir).0) as i32,
                y: (self.y + spec_delta(dir).1) as i32,
                t: (self.t + 1) as i32,
            }),
            spec_is_valid_step(*self, r),
    {
        let (dx, dy) = dir.delta();
        Self::new(self.x + dx, self.y + dy, self.t + 1)
    }

    /// Wait in place (advance time only).
    pub fn wait(&self) -> (r: Self)
        requires
            self.t < i32::MAX,
        ensures
            r == (Position { x: self.x, y: self.y, t: (self.t + 1) as i32 }),
            spec_is_valid_step(*self, r),
    {
        self.tick()
    }

    /// Manhattan distance to another position (spatial only, ignores t).
    pub fn manhattan_distance(&self, other: &Position) -> (r: u32)
        requires
            spec_manhattan(*self, *other) <= u32::MAX,
        ensures
            r == spec_manhattan(*self, *other),
    {
        abs_diff_u32(self.x, other.x) + abs_diff_u32(self.y, other.y)
    }

    /// Check if same (x, y, t).
    pub fn same_spacetime(&self, other: &Position) -> (r: bool)
        ensures
            r == (*self == *other),
    {
        self.x == other.x && self.y == other.y && self.t == other.t
    }

    /// Check if same (x, y), ignoring t.
    pub fn same_space(&self, other: &Position) -> (r: bool)
        ensures
            r == (self.x == other.x && self.y == other.y),
    {
        self.x == other.x && self.y == other.y
    }

    /// Check if this position is spatially adjacent to another (Manhattan distance = 1).
    pub fn is_adjacent(&self, other: &Position) -> (r: bool)
        ensures
            r == (spec_manhattan(*self, *other) == 1),
    {
        let dx = abs_diff_u32(self.x, other.x);
        let dy = abs_diff_u32(self.y, other.y);
        dx as u64 + dy as u64 == 1
    }

    /// Check if this is a valid next step from current position.
    /// Valid: same space with t+1, OR adjacent space with t+1.
    pub fn is_valid_step_from(&self, current: &Position) -> (r: bool)
        ensures
            r == spec_is_valid_step(*current, *self),
    {
        let dt_ok = self.t as i64 == current.t as i64 + 1;
        let dx = abs_diff_u32(self.x, current.x);
        let dy = abs_diff_u32(self.y, current.y);
        dt_ok && dx as u64 + dy as u64 <= 1
    }
}

impl SpatialPos {
    /// Create a new spatial position.
    pub fn new(x: i32, y: i32) -> (r: Self)
        ensures
            r == (SpatialPos { x, y }),
    {
        Self { x, y }
    }

    /// Manhattan distance to another spatial position.
    pub fn manhattan_distance(&self, other: &SpatialPos) -> (r: u32)
        requires
            spec_manhattan_spatial(*self, *other) <= u32::MAX,
        ensures
            r == spec_manhattan_spatial(*self, *other),
    {
        abs_diff_u32(self.x, other.x) + abs_diff_u32(self.y, other.y)
    }

    /// Check if this position is spatially adjacent (Manhattan distance = 1).
    pub fn is_adjacent(&self, other: &SpatialPos) -> (r: bool)
        ensures
            r == (spec_manhattan_spatial(*self, *other) == 1),
    {
        let dx = abs_diff_u32(self.x, other.x);
        let dy = abs_diff_u32(self.y, other.y);
        dx as u64 + dy as u64 == 1
    }
}

impl Direction {
    /// Get the (dx, dy) delta for this direction.
    pub fn delta(&self) -> (r: (i32, i32))
        ensures
            r.0 == spec_delta(*self).0,
            r.1 == spec_delta(*self).1,
    {
        match self {
            Direction::North => (0, -1),
            Direction::South => (0, 1),
            Direction::East => (1, 0),
            Direction::West => (-1, 0),
        }
    }

    /// Get the opposite direction.
    pub fn opposite(&self) -> (r: Direction)
        ensures
            r == spec_opposite(*self),
    {
        match self {
            Direction::North => Direction::South,
            Direction::South => Direction::North,
            Direction::East => Direction::West,
            Direction::West => Direction::East,
        }
    }

    /// All four cardinal directions.
    pub fn all() -> (r: [Direction; 4])
        ensures
            r@ == seq![Direction::North, Direction::South, Direction::East, Direction::West],
    {
        [Direction::North, Direction::South, Direction::East, Direction::West]
    }

    /// Try to determine direction from one position to adjacent position.
    pub fn from_delta(dx: i32, dy: i32) -> (r: Option<Direction>)
        ensures
            r == (match (dx, dy) {
                (0i32, -1i32) => Some(Direction::North),
                (0i32, 1i32) => Some(Direction::South),
                (1i32, 0i32) => Some(Direction::East),
                (-1i32, 0i32) => Some(Direction::West),
                _ => None::<Direction>,
            }),
    {
        match (dx, dy) {
            (0, -1) => Some(Direction::North),
            (0, 1) => Some(Direction::South),
            (1, 0) => Some(Direction::East),
            (-1, 0) => Some(Direction::West),
            _ => None,
        }
    }
}

} // verus!
