//! Points of the plane with integer coordinates.

use vstd::prelude::*;

verus! {

/// A point of the mathematical plane: the model of a [`Point`].
pub ghost struct Position {
    pub x: int,
    pub y: int,
}

/// A point on screen, in units, relative to the centre of the window.
#[derive(Clone, Copy, Debug, PartialEq, Eq, Structural)]
pub struct Point {
    pub x: i32,
    pub y: i32,
}

impl View for Point {
    type V = Position;

    open spec fn view(&self) -> Position {
        Position { x: self.x as int, y: self.y as int }
    }
}

/// The absolute value of an integer.
pub open spec fn magnitude(v: int) -> nat {
    if v >= 0 {
        v as nat
    } else {
        (-v) as nat
    }
}

/// The sign of an integer: 1, 0 or -1.
pub open spec fn signum(v: int) -> int {
    if v > 0 {
        1
    } else if v < 0 {
        -1
    } else {
        0
    }
}

/// The square of the Euclidean distance between two positions.
pub open spec fn dist_sq(a: Position, b: Position) -> nat {
    let dx = magnitude(b.x - a.x);
    let dy = magnitude(b.y - a.y);
    dx * dx + dy * dy
}

/// The square of an integer is the square of its absolute value.
pub proof fn lemma_magnitude_square(v: int)
    ensures
        magnitude(v) * magnitude(v) == v * v,
{
    assert((-v) * (-v) == v * v) by (nonlinear_arith);
}

/// The squared distance is the sum of the squares of the two coordinate
/// differences.
pub proof fn lemma_dist_sq(a: Position, b: Position)
    ensures
        dist_sq(a, b) == (b.x - a.x) * (b.x - a.x) + (b.y - a.y) * (b.y - a.y),
{
    lemma_magnitude_square(b.x - a.x);
    lemma_magnitude_square(b.y - a.y);
}

/// The cross product of the vectors from `o` to `a` and from `o` to `b`.
/// It is zero exactly if the three positions lie on one line.
pub open spec fn cross(o: Position, a: Position, b: Position) -> int {
    (a.x - o.x) * (b.y - o.y) - (a.y - o.y) * (b.x - o.x)
}

/// The dot product of the vectors from `o` to `a` and from `o` to `b`.
pub open spec fn dot(o: Position, a: Position, b: Position) -> int {
    (a.x - o.x) * (b.x - o.x) + (a.y - o.y) * (b.y - o.y)
}

/// Whether `r` is as far from `p` as integer coordinates allow a point to be
/// that is meant to lie at distance `s`: within the circle of radius `s`
/// around `p`, and less than one unit short of it along each axis.
pub open spec fn at_reach(p: Position, r: Position, s: nat) -> bool {
    let ux = magnitude(r.x - p.x);
    let uy = magnitude(r.y - p.y);
    ux * ux + uy * uy <= s * s < (ux + 1) * (ux + 1) + (uy + 1) * (uy + 1)
}

/// Whether `v` lies between `a` and `b`, ends included.
pub open spec fn between(a: int, v: int, b: int) -> bool {
    a <= v <= b || b <= v <= a
}

impl Position {
    /// Whether both coordinates lie within `limit` of the origin.
    pub open spec fn within(self, limit: int) -> bool {
        -limit <= self.x <= limit && -limit <= self.y <= limit
    }
}

impl Point {
    /// The point with the given coordinates.
    pub fn new(x: i32, y: i32) -> (p: Point)
        ensures
            p@ == (Position { x: x as int, y: y as int }),
    {
        Point { x, y }
    }
}

} // verus!
