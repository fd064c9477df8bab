//! Light cone geometry and ray casting for detection.

use vstd::prelude::*;

use crate::position::{abs_int, spec_manhattan_spatial, Position, SpatialPos};
use crate::time_cube::TimeCube;

verus! {

/// One step of the integer line walk: starting from `(x, y)` with the given
/// accumulated error, the walk emits the current cell and then moves toward
/// `(x2, y2)`, advancing along x and/or y as the error term dictates.
/// The `fuel` bounds the recursion; the walk always reaches the endpoint
/// within `dx + dy` steps, which is the fuel the entry point supplies.
pub open spec fn line_rec(
    x: int,
    y: int,
    x2: int,
    y2: int,
    dx: int,
    dy: int,
    sx: int,
    sy: int,
    err: int,
    fuel: nat,
) -> Seq<(i32, i32)>
    decreases fuel,
{
    let here = seq![((x as i32), (y as i32))];
    if (x == x2 && y == y2) || fuel == 0 {
        here
    } else {
        let e2 = 2 * err;
        let nx = if e2 > -dy {
            x + sx
        } else {
            x
        };
        let err1 = if e2 > -dy {
            err - dy
        } else {
            err
        };
        let ny = if e2 < dx {
            y + sy
        } else {
            y
        };
        let err2 = if e2 < dx {
            err1 + dx
        } else {
            err1
        };
        here + line_rec(nx, ny, x2, y2, dx, dy, sx, sy, err2, (fuel - 1) as nat)
    }
}

/// The ordered cells visited by the integer line walk from `(x1, y1)` to
/// `(x2, y2)`, endpoints included.
pub open spec fn spec_bresenham_line(x1: int, y1: int, x2: int, y2: int) -> Seq<(i32, i32)> {
    let dx = abs_int(x2 - x1);
    let dy = abs_int(y2 - y1);
    let sx: int = if x1 < x2 {
        1
    } else {
        -1
    };
    let sy: int = if y1 < y2 {
        1
    } else {
        -1
    };
    line_rec(x1, y1, x2, y2, dx, dy, sx, sy, dx - dy, (dx + dy) as nat)
}

/// The error term stays far from the integer limits while the walk runs.
proof fn lemma_err_range(dx: int, dy: int, rx: int, ry: int, err: int)
    by (nonlinear_arith)
    requires
        0 <= rx <= dx < 0x100000000,
        0 <= ry <= dy < 0x100000000,
        err == dx - dy - dy * (dx - rx) + dx * (dy - ry),
    ensures
        -0x40000000000000000 <= err <= 0x40000000000000000,
{
}

/// Once the walk has reached the target column, the error term forbids any
/// further x move: the walk never overshoots.
proof fn lemma_no_x_overshoot(dx: int, dy: int, ry: int, err: int)
    by (nonlinear_arith)
    requires
        0 <= dx,
        1 <= ry <= dy,
        err == dx - dy - dy * dx + dx * (dy - ry),
    ensures
        2 * err <= -dy,
{
}

/// Once the walk has reached the target row, the error term forbids any
/// further y move: the walk never overshoots.
proof fn lemma_no_y_overshoot(dx: int, dy: int, rx: int, err: int)
    by (nonlinear_arith)
    requires
        0 <= dy,
        1 <= rx <= dx,
        err == dx - dy - dy * (dx - rx) + dx * dy,
    ensures
        2 * err >= dx,
{
}

/// Bookkeeping for an x move: the closed form of the error follows it.
proof fn lemma_err_x_step(dx: int, dy: int, rx: int, ry: int, err: int)
    by (nonlinear_arith)
    requires
        err == dx - dy - dy * (dx - rx) + dx * (dy - ry),
    ensures
        err - dy == dx - dy - dy * (dx - (rx - 1)) + dx * (dy - ry),
{
}

/// Bookkeeping for a y move: the closed form of the error follows it.
proof fn lemma_err_y_step(dx: int, dy: int, rx: int, ry: int, err: int)
    by (nonlinear_arith)
    requires
        err == dx - dy - dy * (dx - rx) + dx * (dy - ry),
    ensures
        err + dx == dx - dy - dy * (dx - rx) + dx * (dy - (ry - 1)),
{
}

/// Remaining x distance of the walk, measured along the walk direction.
pub open spec fn rem_x(x1: int, x2: int, x: int) -> int {
    if x1 < x2 {
        x2 - x
    } else {
        x - x2
    }
}

/// Remaining y distance of the walk, measured along the walk direction.
pub open spec fn rem_y(y1: int, y2: int, y: int) -> int {
    if y1 < y2 {
        y2 - y
    } else {
        y - y2
    }
}

/// The error term of a fresh walk satisfies its closed form.
proof fn lemma_err_init(dx: int, dy: int)
    by (nonlinear_arith)
    ensures
        dx - dy == dx - dy - dy * (dx - dx) + dx * (dy - dy),
{
}

/// Bresenham's line algorithm for ray casting: the ordered cells from
/// `(x1, y1)` to `(x2, y2)`, endpoints included.
pub fn bresenham_line(x1: i32, y1: i32, x2: i32, y2: i32) -> (r: Vec<(i32, i32)>)
    ensures
        r@ == spec_bresenham_line(x1 as int, y1 as int, x2 as int, y2 as int),
        r@.len() >= 1,
        r@[0] == ((x1, y1)),
        r@.last() == ((x2, y2)),
{
    let ghost total = spec_bresenham_line(x1 as int, y1 as int, x2 as int, y2 as int);
    let mut points: Vec<(i32, i32)> = Vec::new();
    let dx: i128 = if x2 >= x1 {
        x2 as i128 - x1 as i128
    } else {
        x1 as i128 - x2 as i128
    };
    let dy: i128 = if y2 >= y1 {
        y2 as i128 - y1 as i128
    } else {
        y1 as i128 - y2 as i128
    };
    let sx: i32 = if x1 < x2 {
        1
    } else {
        -1
    };
    let sy: i32 = if y1 < y2 {
        1
    } else {
        -1
    };
    let mut err: i128 = dx - dy;
    let mut x = x1;
    let mut y = y1;
    let ghost mut fuel: int = dx as int + dy as int;
    proof {
        lemma_err_init(dx as int, dy as int);
    }
    loop
        invariant_except_break
            dx == abs_int(x2 as int - x1 as int),
            dy == abs_int(y2 as int - y1 as int),
            0 <= dx < 0x100000000,
            0 <= dy < 0x100000000,
            sx as int == (if x1 < x2 {
                1int
            } else {
                -1int
            }),
            sy as int == (if y1 < y2 {
                1int
            } else {
                -1int
            }),
            0 <= rem_x(x1 as int, x2 as int, x as int) <= dx as int,
            0 <= rem_y(y1 as int, y2 as int, y as int) <= dy as int,
            err as int == dx as int - dy as int - (dy as int) * (dx as int - rem_x(
                x1 as int,
                x2 as int,
                x as int,
            )) + (dx as int) * (dy as int - rem_y(y1 as int, y2 as int, y as int)),
            fuel >= rem_x(x1 as int, x2 as int, x as int) + rem_y(y1 as int, y2 as int, y as int),
            points@ + line_rec(
                x as int,
                y as int,
                x2 as int,
                y2 as int,
                dx as int,
                dy as int,
                sx as int,
                sy as int,
                err as int,
                fuel as nat,
            ) == total,
            fuel >= 0,
        ensures
            points@ == total,
            points@.len() >= 1,
            points@.last() == ((x2, y2)),
        decreases fuel,
    {
        let ghost rx = rem_x(x1 as int, x2 as int, x as int);
        let ghost ry = rem_y(y1 as int, y2 as int, y as int);
        points.push((x, y));
        if x == x2 && y == y2 {
            proof {
                assert(line_rec(
                    x as int,
                    y as int,
                    x2 as int,
                    y2 as int,
                    dx as int,
                    dy as int,
                    sx as int,
                    sy as int,
                    err as int,
                    fuel as nat,
                ) == seq![((x2, y2))]);
                assert(points@ =~= total);
            }
            break;
        }
        proof {
            lemma_err_range(dx as int, dy as int, rx, ry, err as int);
            // at least one coordinate still has distance to cover
            assert(rx + ry >= 1);
            if rx == 0 {
                assert(x == x2);
                assert(ry >= 1);
                lemma_no_x_overshoot(dx as int, dy as int, ry, err as int);
            }
            if ry == 0 {
                assert(y == y2);
                assert(rx >= 1);
                lemma_no_y_overshoot(dx as int, dy as int, rx, err as int);
            }
        }
        let e2: i128 = 2 * err;
        let stepped_x = e2 > -dy;
        let stepped_y = e2 < dx;
        proof {
            if !stepped_x && !stepped_y {
                // 2*err <= -dy and 2*err >= dx force dx + dy <= 0: both zero,
                // so the endpoint was already reached.
                assert(false);
            }
            if stepped_x {
                assert(rx >= 1);
                lemma_err_x_step(dx as int, dy as int, rx, ry, err as int);
            }
            if stepped_y {
                assert(ry >= 1);
                lemma_err_y_step(
                    dx as int,
                    dy as int,
                    if stepped_x {
                        rx - 1
                    } else {
                        rx
                    },
                    ry,
                    if stepped_x {
                        (err - dy) as int
                    } else {
                        err as int
                    },
                );
            }
        }
        if stepped_x {
            err = err - dy;
            x = x + sx;
        }
        if stepped_y {
            err = err + dx;
            y = y + sy;
        }
        proof {
            fuel = fuel - 1;
        }
    }
    proof {
        assert(total[0] == ((x1, y1)));
    }
    points
}

/// Cell `k` of the sight line between `from` and `to` is strictly interior
/// and blocks vision at time `t`.
pub open spec fn blocked_line_index(
    cube: TimeCube,
    from: SpatialPos,
    to: SpatialPos,
    t: i32,
    k: int,
) -> bool {
    let line = spec_bresenham_line(from.x as int, from.y as int, to.x as int, to.y as int);
    0 <= k < line.len() && !(line[k].0 == from.x && line[k].1 == from.y) && !(line[k].0 == to.x
        && line[k].1 == to.y) && cube.spec_blocks_vision(Position { x: line[k].0, y: line[k].1, t })
}

/// A strictly interior cell of the sight line between `from` and `to` at
/// time `t` blocks vision.
pub open spec fn spec_line_blocked(
    cube: TimeCube,
    from: SpatialPos,
    to: SpatialPos,
    t: i32,
) -> bool {
    exists|k: int| #[trigger] blocked_line_index(cube, from, to, t, k)
}

/// Check if line of sight is blocked between two points at time t.
/// Cells strictly between the endpoints that block vision defeat the check;
/// the endpoints themselves never block their own check.
pub fn is_line_blocked(cube: &TimeCube, from: SpatialPos, to: SpatialPos, t: i32) -> (r: bool)
    requires
        cube.wf(),
    ensures
        r == spec_line_blocked(*cube, from, to, t),
{
    let ghost line = spec_bresenham_line(from.x as int, from.y as int, to.x as int, to.y as int);
    let points = bresenham_line(from.x, from.y, to.x, to.y);
    let n = points.len();
    for k in 0..n
        invariant
            cube.wf(),
            n == points@.len(),
            points@ == line,
            line == spec_bresenham_line(from.x as int, from.y as int, to.x as int, to.y as int),
            forall|j: int| 0 <= j < k ==> !blocked_line_index(*cube, from, to, t, j),
    {
        let (px, py) = points[k];
        let endpoint = (px == from.x && py == from.y) || (px == to.x && py == to.y);
        if !endpoint && cube.blocks_vision(Position::new(px, py, t)) {
            proof {
                assert(line[k as int].0 == px && line[k as int].1 == py);
                assert(blocked_line_index(*cube, from, to, t, k as int));
            }
            return true;
        }
    }
    false
}

/// Manhattan distance between two spatial positions.
pub fn manhattan_distance(a: SpatialPos, b: SpatialPos) -> (r: i32)
    requires
        spec_manhattan_spatial(a, b) <= i32::MAX,
    ensures
        r == spec_manhattan_spatial(a, b),
{
    let dx: i64 = if a.x >= b.x {
        a.x as i64 - b.x as i64
    } else {
        b.x as i64 - a.x as i64
    };
    let dy: i64 = if a.y >= b.y {
        a.y as i64 - b.y as i64
    } else {
        b.y as i64 - a.y as i64
    };
    (dx + dy) as i32
}

} // verus!
