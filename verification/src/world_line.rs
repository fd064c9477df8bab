//! World line tracking for the player.

use vstd::prelude::*;

use crate::position::{spec_is_valid_step, Position};

verus! {

/// The player's path through space-time.
///
/// **Invariants:**
/// - No two positions share the same `(x, y, t)` — no self-intersection.
/// - The path is ordered by **turn number** (move sequence), NOT by `t`.
/// - The `t` values may be non-monotonic (rifts can send the player to the past).
#[derive(Debug)]
pub struct WorldLine {
    /// Ordered sequence of positions visited (by turn, not by t).
    pub path: Vec<Position>,
}

/// Error types for world line operations.
#[derive(Debug, Clone, Copy, PartialEq, Eq, Structural)]
pub enum WorldLineError {
    /// Self-intersection at position.
    SelfIntersection {
        /// X coordinate.
        x: i32,
        /// Y coordinate.
        y: i32,
        /// T coordinate.
        t: i32,
    },
    /// World line is empty.
    Empty,
    /// Invalid step for normal movement.
    InvalidStep {
        /// From x.
        fx: i32,
        /// From y.
        fy: i32,
        /// From t.
        ft: i32,
        /// To x.
        tx: i32,
        /// To y.
        ty: i32,
        /// To t.
        tt: i32,
    },
}

/// No two entries of the sequence are the same space-time triple.
pub open spec fn seq_no_dups(s: Seq<Position>) -> bool {
    forall|i: int, j: int| 0 <= i < j < s.len() ==> s[i] != s[j]
}

/// The least time coordinate of a non-empty sequence of positions.
pub open spec fn spec_min_t(s: Seq<Position>) -> int
    recommends
        s.len() > 0,
    decreases s.len(),
{
    if s.len() <= 1 {
        s[0].t as int
    } else if s.last().t < spec_min_t(s.drop_last()) {
        s.last().t as int
    } else {
        spec_min_t(s.drop_last())
    }
}

/// The greatest time coordinate of a non-empty sequence of positions.
pub open spec fn spec_max_t(s: Seq<Position>) -> int
    recommends
        s.len() > 0,
    decreases s.len(),
{
    if s.len() <= 1 {
        s[0].t as int
    } else if s.last().t > spec_max_t(s.drop_last()) {
        s.last().t as int
    } else {
        spec_max_t(s.drop_last())
    }
}

/// The positions of the sequence whose time coordinate is `t`, in turn order.
pub open spec fn spec_positions_at_time(s: Seq<Position>, t: i32) -> Seq<Position>
    decreases s.len(),
{
    if s.len() == 0 {
        Seq::empty()
    } else if s.last().t == t {
        spec_positions_at_time(s.drop_last(), t).push(s.last())
    } else {
        spec_positions_at_time(s.drop_last(), t)
    }
}

/// The positions at time `t` paired with their turn index, in turn order.
pub open spec fn spec_positions_at_time_with_turn(s: Seq<Position>, t: i32) -> Seq<
    (Position, usize),
>
    decreases s.len(),
{
    if s.len() == 0 {
        Seq::empty()
    } else if s.last().t == t {
        spec_positions_at_time_with_turn(s.drop_last(), t).push(
            (s.last(), (s.len() - 1) as usize),
        )
    } else {
        spec_positions_at_time_with_turn(s.drop_last(), t)
    }
}

/// The latest-turn position with time coordinate `t`, if any.
pub open spec fn spec_last_position_at_time(s: Seq<Position>, t: int) -> Option<Position>
    decreases s.len(),
{
    if s.len() == 0 {
        None
    } else if s.last().t == t {
        Some(s.last())
    } else {
        spec_last_position_at_time(s.drop_last(), t)
    }
}

impl View for WorldLine {
    type V = Seq<Position>;

    open spec fn view(&self) -> Seq<Position> {
        self.path@
    }
}

impl Clone for WorldLine {
    /// Clone preserves the recorded path exactly.
    fn clone(&self) -> (res: Self)
        ensures
            res@ == self@,
    {
        let mut path: Vec<Position> = Vec::new();
        let n = self.path.len();
        for i in 0..n
            invariant
                n == self.path.len(),
                path@ =~= self.path@.subrange(0, i as int),
        {
            path.push(self.path[i]);
        }
        proof {
            assert(path@ =~= self.path@);
        }
        WorldLine { path }
    }
}

impl WorldLine {
    /// The world line never records the same triple twice.
    pub open spec fn wf(&self) -> bool {
        seq_no_dups(self@)
    }

    /// Create a new world line starting at position (turn 0).
    pub fn new(start: Position) -> (r: Self)
        ensures
            r@ =~= seq![start],
            r.wf(),
    {
        let mut path: Vec<Position> = Vec::new();
        path.push(start);
        let r = Self { path };
        proof {
            assert(r@ =~= seq![start]);
        }
        r
    }

    /// Create an empty world line.
    pub fn empty() -> (r: Self)
        ensures
            r@ =~= Seq::<Position>::empty(),
            r.wf(),
    {
        Self { path: Vec::new() }
    }

    /// Get the current (last) position, or None if empty.
    pub fn current(&self) -> (r: Option<Position>)
        ensures
            self@.len() == 0 ==> r is None,
            self@.len() > 0 ==> r == Some(self@.last()),
    {
        if self.path.len() == 0 {
            None
        } else {
            Some(self.path[self.path.len() - 1])
        }
    }

    /// Get the current time (t coordinate of last position).
    pub fn current_time(&self) -> (r: Option<i32>)
        ensures
            self@.len() == 0 ==> r is None,
            self@.len() > 0 ==> r == Some(self@.last().t),
    {
        match self.current() {
            Some(pos) => Some(pos.t),
            None => None,
        }
    }

    /// Get the starting position (turn 0), or None if empty.
    pub fn start(&self) -> (r: Option<Position>)
        ensures
            self@.len() == 0 ==> r is None,
            self@.len() > 0 ==> r == Some(self@[0]),
    {
        if self.path.len() == 0 {
            None
        } else {
            Some(self.path[0])
        }
    }

    /// Get the full path (ordered by turn).
    pub fn path(&self) -> (r: &Vec<Position>)
        ensures
            r@ == self@,
    {
        &self.path
    }

    /// Get position at a specific turn number.
    pub fn position_at_turn(&self, turn: usize) -> (r: Option<Position>)
        ensures
            turn < self@.len() ==> r == Some(self@[turn as int]),
            turn >= self@.len() ==> r is None,
    {
        if turn < self.path.len() {
            Some(self.path[turn])
        } else {
            None
        }
    }

    /// Get the number of turns (positions) in the line.
    pub fn len(&self) -> (r: usize)
        ensures
            r == self@.len(),
    {
        self.path.len()
    }

    /// Get the current turn number (len - 1, or None if empty).
    pub fn current_turn(&self) -> (r: Option<usize>)
        ensures
            self@.len() == 0 ==> r is None,
            self@.len() > 0 ==> r == Some((self@.len() - 1) as usize),
    {
        if self.path.len() == 0 {
            None
        } else {
            Some(self.path.len() - 1)
        }
    }

    /// Check if empty.
    pub fn is_empty(&self) -> (r: bool)
        ensures
            r == (self@.len() == 0),
    {
        self.path.len() == 0
    }

    /// Check if a position would cause self-intersection.
    pub fn would_intersect(&self, pos: Position) -> (r: bool)
        ensures
            r == self@.contains(pos),
    {
        let n = self.path.len();
        for i in 0..n
            invariant
                n == self@.len(),
                forall|j: int| 0 <= j < i ==> self@[j] != pos,
        {
            if self.path[i] == pos {
                proof {
                    assert(self@[i as int] == pos);
                }
                return true;
            }
        }
        false
    }

    /// Check if adding position is a valid normal step (same space or
    /// adjacent, with t+1); false on an empty line.
    pub fn is_valid_step(&self, pos: Position) -> (r: bool)
        ensures
            self@.len() == 0 ==> r == false,
            self@.len() > 0 ==> r == spec_is_valid_step(self@.last(), pos),
    {
        match self.current() {
            Some(current) => pos.is_valid_step_from(&current),
            None => false,
        }
    }

    /// Extend with a standard move (validates adjacency + t+1 + no intersection).
    ///
    /// The causal step law: the extension succeeds exactly when
    /// `pos.t == current.t + 1`, the spatial Manhattan distance is at most 1,
    /// and `pos` was never visited; on any failure the line is unchanged.
    pub fn extend(&mut self, pos: Position) -> (r: Result<(), WorldLineError>)
        ensures
            old(self)@.len() == 0 ==> r == Err::<(), WorldLineError>(WorldLineError::Empty)
                && final(self)@ == old(self)@,
            old(self)@.len() > 0 && !spec_is_valid_step(old(self)@.last(), pos) ==> r == Err::<
                (),
                WorldLineError,
            >(
                WorldLineError::InvalidStep {
                    fx: old(self)@.last().x,
                    fy: old(self)@.last().y,
                    ft: old(self)@.last().t,
                    tx: pos.x,
                    ty: pos.y,
                    tt: pos.t,
                },
            ) && final(self)@ == old(self)@,
            old(self)@.len() > 0 && spec_is_valid_step(old(self)@.last(), pos) && old(
                self,
            )@.contains(pos) ==> r == Err::<(), WorldLineError>(
                WorldLineError::SelfIntersection { x: pos.x, y: pos.y, t: pos.t },
            ) && final(self)@ == old(self)@,
            old(self)@.len() > 0 && spec_is_valid_step(old(self)@.last(), pos) && !old(
                self,
            )@.contains(pos) ==> r == Ok::<(), WorldLineError>(()) && final(self)@ == old(self)@.push(pos),
            old(self).wf() ==> final(self).wf(),
    {
        let current = match self.current() {
            Some(current) => current,
            None => {
                return Err(WorldLineError::Empty);
            },
        };
        if !pos.is_valid_step_from(&current) {
            return Err(
                WorldLineError::InvalidStep {
                    fx: current.x,
                    fy: current.y,
                    ft: current.t,
                    tx: pos.x,
                    ty: pos.y,
                    tt: pos.t,
                },
            );
        }
        if self.would_intersect(pos) {
            return Err(WorldLineError::SelfIntersection { x: pos.x, y: pos.y, t: pos.t });
        }
        self.path.push(pos);
        proof {
            if old(self).wf() {
                lemma_push_keeps_no_dups(old(self)@, pos);
            }
        }
        Ok(())
    }

    /// Extend via rift (validates only self-intersection, skips adjacency
    /// and time-step checks: teleportation bypasses the causal step rule).
    pub fn extend_via_rift(&mut self, pos: Position) -> (r: Result<(), WorldLineError>)
        ensures
            old(self)@.len() == 0 ==> r == Err::<(), WorldLineError>(WorldLineError::Empty)
                && final(self)@ == old(self)@,
            old(self)@.len() > 0 && old(self)@.contains(pos) ==> r == Err::<(), WorldLineError>(
                WorldLineError::SelfIntersection { x: pos.x, y: pos.y, t: pos.t },
            ) && final(self)@ == old(self)@,
            old(self)@.len() > 0 && !old(self)@.contains(pos) ==> r == Ok::<(), WorldLineError>(())
                && final(self)@ == old(self)@.push(pos),
            old(self).wf() ==> final(self).wf(),
    {
        if self.is_empty() {
            return Err(WorldLineError::Empty);
        }
        if self.would_intersect(pos) {
            return Err(WorldLineError::SelfIntersection { x: pos.x, y: pos.y, t: pos.t });
        }
        self.path.push(pos);
        proof {
            if old(self).wf() {
                lemma_push_keeps_no_dups(old(self)@, pos);
            }
        }
        Ok(())
    }

    /// Try to extend with standard move, returns false on any validation failure.
    pub fn try_extend(&mut self, pos: Position) -> (r: bool)
        ensures
            r == (old(self)@.len() > 0 && spec_is_valid_step(old(self)@.last(), pos) && !old(
                self,
            )@.contains(pos)),
            r ==> final(self)@ == old(self)@.push(pos),
            !r ==> final(self)@ == old(self)@,
            old(self).wf() ==> final(self).wf(),
    {
        self.extend(pos).is_ok()
    }

    /// Check if the world line contains a position (same x, y, t).
    pub fn contains(&self, pos: Position) -> (r: bool)
        ensures
            r == self@.contains(pos),
    {
        self.would_intersect(pos)
    }

    /// Get ALL positions at a specific time t (may be multiple due to time
    /// travel), in turn order. Returns an empty vector if none.
    pub fn positions_at_time(&self, t: i32) -> (r: Vec<Position>)
        ensures
            r@ == spec_positions_at_time(self@, t),
    {
        let mut out: Vec<Position> = Vec::new();
        let n = self.path.len();
        for i in 0..n
            invariant
                n == self@.len(),
                out@ =~= spec_positions_at_time(self@.subrange(0, i as int), t),
        {
            proof {
                assert(self@.subrange(0, i + 1).drop_last() =~= self@.subrange(0, i as int));
            }
            if self.path[i].t == t {
                out.push(self.path[i]);
            }
        }
        proof {
            assert(self@.subrange(0, n as int) =~= self@);
        }
        out
    }

    /// The positions at time `t` paired with the turn at which each was
    /// visited, in turn order.
    pub fn positions_at_time_with_turn(&self, t: i32) -> (r: Vec<(Position, usize)>)
        ensures
            r@ == spec_positions_at_time_with_turn(self@, t),
    {
        let mut out: Vec<(Position, usize)> = Vec::new();
        let n = self.path.len();
        for i in 0..n
            invariant
                n == self@.len(),
                out@ =~= spec_positions_at_time_with_turn(self@.subrange(0, i as int), t),
        {
            proof {
                assert(self@.subrange(0, i + 1).drop_last() =~= self@.subrange(0, i as int));
            }
            if self.path[i].t == t {
                out.push((self.path[i], i));
            }
        }
        proof {
            assert(self@.subrange(0, n as int) =~= self@);
        }
        out
    }

    /// The latest-turn recorded position whose time coordinate is `t`.
    pub fn current_position_at_time(&self, t: i32) -> (r: Option<Position>)
        ensures
            r == spec_last_position_at_time(self@, t as int),
    {
        let n = self.path.len();
        let mut i = n;
        proof {
            assert(self@.subrange(0, n as int) =~= self@);
        }
        while i > 0
            invariant
                n == self@.len(),
                i <= n,
                spec_last_position_at_time(self@, t as int) == spec_last_position_at_time(
                    self@.subrange(0, i as int),
                    t as int,
                ),
            decreases i,
        {
            i = i - 1;
            proof {
                assert(self@.subrange(0, i + 1).drop_last() =~= self@.subrange(0, i as int));
            }
            if self.path[i].t == t {
                proof {
                    assert(self@.subrange(0, i + 1).last() == self@[i as int]);
                }
                return Some(self.path[i]);
            }
        }
        proof {
            assert(self@.subrange(0, 0) =~= Seq::<Position>::empty());
        }
        None
    }

    /// The latest-turn recorded position whose time coordinate is `t`,
    /// where `t` may lie outside the `i32` range (then there is none).
    pub fn current_position_at_time_wide(&self, t: i64) -> (r: Option<Position>)
        ensures
            r == spec_last_position_at_time(self@, t as int),
    {
        let n = self.path.len();
        let mut i = n;
        proof {
            assert(self@.subrange(0, n as int) =~= self@);
        }
        while i > 0
            invariant
                n == self@.len(),
                i <= n,
                spec_last_position_at_time(self@, t as int) == spec_last_position_at_time(
                    self@.subrange(0, i as int),
                    t as int,
                ),
            decreases i,
        {
            i = i - 1;
            proof {
                assert(self@.subrange(0, i + 1).drop_last() =~= self@.subrange(0, i as int));
            }
            if self.path[i].t as i64 == t {
                proof {
                    assert(self@.subrange(0, i + 1).last() == self@[i as int]);
                }
                return Some(self.path[i]);
            }
        }
        proof {
            assert(self@.subrange(0, 0) =~= Seq::<Position>::empty());
        }
        None
    }

    /// Get the time range (min_t, max_t) across all positions, or None if empty.
    pub fn time_range(&self) -> (r: Option<(i32, i32)>)
        ensures
            self@.len() == 0 ==> r is None,
            self@.len() > 0 ==> r == Some(
                ((spec_min_t(self@) as i32), (spec_max_t(self@) as i32)),
            ) && spec_min_t(self@) <= spec_max_t(self@),
    {
        let n = self.path.len();
        if n == 0 {
            return None;
        }
        let mut min_t = self.path[0].t;
        let mut max_t = self.path[0].t;
        let mut i: usize = 1;
        proof {
            assert(self@.subrange(0, 1).drop_last() =~= Seq::<Position>::empty());
            assert(self@.subrange(0, 1)[0] == self@[0]);
        }
        while i < n
            invariant
                n == self@.len(),
                1 <= i <= n,
                min_t == spec_min_t(self@.subrange(0, i as int)),
                max_t == spec_max_t(self@.subrange(0, i as int)),
                min_t <= max_t,
            decreases n - i,
        {
            proof {
                assert(self@.subrange(0, i + 1).drop_last() =~= self@.subrange(0, i as int));
                assert(self@.subrange(0, i + 1).last() == self@[i as int]);
            }
            let t = self.path[i].t;
            if t < min_t {
                min_t = t;
            }
            if t > max_t {
                max_t = t;
            }
            i = i + 1;
        }
        proof {
            assert(self@.subrange(0, n as int) =~= self@);
        }
        Some((min_t, max_t))
    }

    /// The greatest time coordinate ever visited, or None if empty.
    pub fn max_t(&self) -> (r: Option<i32>)
        ensures
            self@.len() == 0 ==> r is None,
            self@.len() > 0 ==> r == Some((spec_max_t(self@) as i32)),
    {
        match self.time_range() {
            Some((_, max_t)) => Some(max_t),
            None => None,
        }
    }

    /// Get all unique time values visited, sorted ascending.
    pub fn visited_times(&self) -> (r: Vec<i32>)
        ensures
            forall|a: int, b: int| 0 <= a < b < r@.len() ==> r@[a] < r@[b],
            forall|v: i32| #[trigger] r@.contains(v) <==> exists|i: int|
                0 <= i < self@.len() && self@[i].t == v,
    {
        let mut out: Vec<i32> = Vec::new();
        let n = self.path.len();
        for i in 0..n
            invariant
                n == self@.len(),
                forall|a: int, b: int| 0 <= a < b < out@.len() ==> out@[a] < out@[b],
                forall|v: i32| #[trigger] out@.contains(v) <==> exists|j: int|
                    0 <= j < i && self@[j].t == v,
        {
            let ghost prev = out@;
            let t = self.path[i].t;
            let mut lo: usize = 0;
            while lo < out.len() && out[lo] < t
                invariant
                    lo <= out@.len(),
                    out@ == prev,
                    forall|a: int, b: int| 0 <= a < b < out@.len() ==> out@[a] < out@[b],
                    forall|a: int| 0 <= a < lo ==> out@[a] < t,
                decreases out@.len() - lo,
            {
                lo = lo + 1;
            }
            let present = lo < out.len() && out[lo] == t;
            proof {
                if present {
                    assert(out@[lo as int] == t);
                    assert(out@.contains(t));
                } else {
                    assert forall|a: int| 0 <= a < out@.len() implies out@[a] != t by {
                        if a >= lo {
                            if a > lo {
                                assert(out@[lo as int] < out@[a]);
                            }
                        }
                    }
                    if out@.contains(t) {
                        let w = choose|w: int| 0 <= w < out@.len() && out@[w] == t;
                        assert(false);
                    }
                }
            }
            if !present {
                out.insert(lo, t);
                proof {
                    assert forall|a: int, b: int|
                        0 <= a < b < out@.len() implies out@[a] < out@[b] by {
                        assert(out@ == prev.insert(lo as int, t));
                    }
                    assert forall|v: i32| #[trigger] out@.contains(v) implies (prev.contains(v)
                        || v == t) by {
                        let w = choose|w: int| 0 <= w < out@.len() && out@[w] == v;
                        if w < lo {
                            assert(prev[w] == v);
                        } else if w > lo {
                            assert(prev[w - 1] == v);
                        }
                    }
                    assert forall|v: i32| prev.contains(v) || v == t implies #[trigger] out@.contains(
                        v,
                    ) by {
                        if v == t {
                            assert(out@[lo as int] == v);
                        } else {
                            let w = choose|w: int| 0 <= w < prev.len() && prev[w] == v;
                            if w < lo {
                                assert(out@[w] == v);
                            } else {
                                assert(out@[w + 1] == v);
                            }
                        }
                    }
                }
            }
            proof {
                assert forall|v: i32| #[trigger] out@.contains(v) implies exists|j: int|
                    0 <= j < i + 1 && self@[j].t == v by {
                    if v == t {
                        assert(self@[i as int].t == v);
                    }
                }
                assert forall|v: i32| (exists|j: int| 0 <= j < i + 1 && self@[j].t == v)
                    implies #[trigger] out@.contains(v) by {
                    let j = choose|j: int| 0 <= j < i + 1 && self@[j].t == v;
                    if j < i {
                        assert(prev.contains(v));
                        if present {
                        } else {
                            let w = choose|w: int| 0 <= w < prev.len() && prev[w] == v;
                        }
                    } else {
                        assert(v == t);
                        if present {
                            assert(prev.contains(t));
                        }
                    }
                }
            }
        }
        out
    }

    /// Reset to a new starting position (clears history).
    pub fn reset(&mut self, start: Position)
        ensures
            final(self)@ =~= seq![start],
            final(self).wf(),
    {
        self.path.clear();
        self.path.push(start);
        proof {
            assert(self@ =~= seq![start]);
        }
    }

    /// Clear the world line entirely.
    pub fn clear(&mut self)
        ensures
            final(self)@ =~= Seq::<Position>::empty(),
            final(self).wf(),
    {
        self.path.clear();
    }

    /// The positions in turn order, as a fresh vector.
    pub fn iter(&self) -> (r: Vec<Position>)
        ensures
            r@ == self@,
    {
        let copy = self.clone();
        copy.path
    }
}

/// Pushing a position that is not yet present keeps a world line free of
/// duplicates.
pub proof fn lemma_push_keeps_no_dups(s: Seq<Position>, pos: Position)
    requires
        seq_no_dups(s),
        !s.contains(pos),
    ensures
        seq_no_dups(s.push(pos)),
{
    let p = s.push(pos);
    assert forall|i: int, j: int| 0 <= i < j < p.len() implies p[i] != p[j] by {
        if j == s.len() {
            assert(p[i] == s[i]);
            assert(!s.contains(pos));
            assert(s[i] != pos);
        }
    }
}

/// The no-self-intersection law: a well-formed world line never records the
/// same `(x, y, t)` triple at two different turns; every successful `extend`
/// or `extend_via_rift` preserves this, and every rejected one leaves the
/// line unchanged.
pub proof fn lemma_no_self_intersection(wl: WorldLine)
    requires
        wl.wf(),
    ensures
        forall|i: int, j: int| 0 <= i < j < wl@.len() ==> wl@[i] != wl@[j],
{
}

} // verus!
