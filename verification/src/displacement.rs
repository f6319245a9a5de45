//! Where a point is drawn, given where it rests and where the cursor is.
//!
//! A point is displaced from its rest position along the line through the
//! cursor by a fixed length, the reach. Positions are integers, so each
//! component of the displacement is rounded toward zero: the drawn point lies
//! within the circle of that radius around the rest position and less than
//! one unit per axis away from it, and exactly on it wherever the circle
//! meets the line in a point with integer coordinates.

use vstd::prelude::*;
use crate::controls::Mode;
use crate::geometry::{
    at_reach, between, cross, dist_sq, dot, lemma_dist_sq, lemma_magnitude_square, magnitude,
    signum, Point, Position,
};
use crate::numeric::{floor_sqrt, isqrt, lemma_floor_sqrt, lemma_square_monotonic};
use crate::units::{COORD_LIMIT, MAX_REACH};

verus! {

/// Whether `q` is `a * s / sqrt(n)` rounded down: the largest whole number
/// with `q * sqrt(n) <= a * s`, stated over the squares.
pub open spec fn is_axis_shift(q: nat, a: nat, s: nat, n: nat) -> bool {
    q * q * n <= (a * a) * (s * s) < (q + 1) * (q + 1) * n
}

/// The length by which a point moves along one axis: `a * s / sqrt(n)`
/// rounded down, where `a` is the distance to the cursor along that axis,
/// `n` the square of the distance to the cursor, which is not zero, and `s`
/// the reach.
pub open spec fn axis_shift(a: nat, s: nat, n: nat) -> nat {
    choose|q: nat| is_axis_shift(q, a, s, n)
}

/// The vector of length `s` that points from `p` toward `c`, each component
/// rounded toward zero.
pub open spec fn shift_toward(p: Position, c: Position, s: nat) -> Position {
    let dx = c.x - p.x;
    let dy = c.y - p.y;
    let n = dist_sq(p, c);
    Position {
        x: signum(dx) * axis_shift(magnitude(dx), s, n),
        y: signum(dy) * axis_shift(magnitude(dy), s, n),
    }
}

/// Where the point that rests at `p` is drawn while the cursor is at `c`.
///
/// Pulled, a point farther than the reach `s` from the cursor moves toward it
/// by `s`; a point within the reach sits under the cursor. Pushed, a point
/// moves away from the cursor by `s`; a point exactly under the cursor has no
/// direction to move in and no position.
pub open spec fn displaced(p: Position, c: Position, mode: Mode, s: nat) -> Option<Position> {
    let v = shift_toward(p, c, s);
    match mode {
        Mode::Pull => if dist_sq(p, c) > s * s {
            Some(Position { x: p.x + v.x, y: p.y + v.y })
        } else {
            Some(c)
        },
        Mode::Push => if dist_sq(p, c) == 0 {
            None
        } else {
            Some(Position { x: p.x - v.x, y: p.y - v.y })
        },
    }
}

/// The position of a point that may have none.
pub open spec fn position_of(point: Option<Point>) -> Option<Position> {
    match point {
        Some(p) => Some(p@),
        None => None,
    }
}

/// Where the point that rests at `base` is drawn while the cursor is at
/// `cursor`, for a reach given in units. `None` is a point without a
/// position: a pushed point exactly under the cursor.
pub fn displace(base: Point, cursor: Point, mode: Mode, reach: u32) -> (drawn: Option<Point>)
    requires
        mode is Push ==> base@.within(COORD_LIMIT as int) && reach <= MAX_REACH,
    ensures
        position_of(drawn) == displaced(base@, cursor@, mode, reach as nat),
{
    let a: u64 = span(base.x, cursor.x);
    let b: u64 = span(base.y, cursor.y);
    let dx: i64 = cursor.x as i64 - base.x as i64;
    let dy: i64 = cursor.y as i64 - base.y as i64;
    let s: u64 = reach as u64;
    assert(a * a <= 0xFFFF_FFFF * 0xFFFF_FFFF && b * b <= 0xFFFF_FFFF * 0xFFFF_FFFF && s * s
        <= 0xFFFF_FFFF * 0xFFFF_FFFF) by (nonlinear_arith)
        requires
            a <= 0xFFFF_FFFF,
            b <= 0xFFFF_FFFF,
            s <= 0xFFFF_FFFF,
    ;
    let n: u128 = (a as u128) * (a as u128) + (b as u128) * (b as u128);
    let ss: u128 = (s as u128) * (s as u128);
    proof {
        lemma_magnitude_square(cursor.x - base.x);
        lemma_magnitude_square(cursor.y - base.y);
        assert(a * a <= n && b * b <= n) by (nonlinear_arith)
            requires
                n == a * a + b * b,
        ;
    }
    match mode {
        Mode::Pull => {
            if n > ss {
                let qx: u64 = compute_axis_shift(a, s, n);
                let qy: u64 = compute_axis_shift(b, s, n);
                proof {
                    lemma_axis_shift_stops_short(a as nat, s as nat, n as nat);
                    lemma_axis_shift_stops_short(b as nat, s as nat, n as nat);
                    lemma_signed_length(dx as int, qx as nat);
                    lemma_signed_length(dy as int, qy as nat);
                }
                Some(Point { x: step(base.x, dx, qx, false), y: step(base.y, dy, qy, false) })
            } else {
                Some(cursor)
            }
        },
        Mode::Push => {
            if n == 0 {
                None
            } else {
                let qx: u64 = compute_axis_shift(a, s, n);
                let qy: u64 = compute_axis_shift(b, s, n);
                proof {
                    lemma_axis_shift_within_reach(a as nat, s as nat, n as nat);
                    lemma_axis_shift_within_reach(b as nat, s as nat, n as nat);
                    lemma_signed_length(dx as int, qx as nat);
                    lemma_signed_length(dy as int, qy as nat);
                }
                Some(Point { x: step(base.x, dx, qx, true), y: step(base.y, dy, qy, true) })
            }
        },
    }
}

/// A pulled point within the reach of the cursor is drawn exactly at the
/// cursor.
pub proof fn pull_within_reach_meets_cursor(p: Position, c: Position, s: nat)
    requires
        dist_sq(p, c) <= s * s,
    ensures
        displaced(p, c, Mode::Pull, s) == Some(c),
{
}

/// A pulled point farther from the cursor than the reach is drawn at the
/// distance of the reach from its rest position, up to rounding, and between
/// its rest position and the cursor.
pub proof fn pull_beyond_reach_keeps_distance(p: Position, c: Position, s: nat)
    requires
        dist_sq(p, c) > s * s,
    ensures
        displaced(p, c, Mode::Pull, s) matches Some(r) && at_reach(p, r, s) && between(
            p.x,
            r.x,
            c.x,
        ) && between(p.y, r.y, c.y),
{
    let dx = c.x - p.x;
    let dy = c.y - p.y;
    let a = magnitude(dx);
    let b = magnitude(dy);
    let n = dist_sq(p, c);
    lemma_shift_toward(p, c, s);
    lemma_magnitude_square(dx);
    lemma_magnitude_square(dy);
    assert(a * a <= n && b * b <= n) by (nonlinear_arith)
        requires
            n == a * a + b * b,
    ;
    lemma_axis_shift_stops_short(a, s, n);
    lemma_axis_shift_stops_short(b, s, n);
}

/// Wherever a position `t` with integer coordinates lies exactly at the
/// distance of the reach from `p`, on the ray from `p` through the cursor, a
/// pulled point farther from the cursor than the reach is drawn exactly at
/// `t`.
pub proof fn pull_beyond_reach_exact(p: Position, c: Position, s: nat, t: Position)
    requires
        dist_sq(p, c) > s * s,
        dist_sq(p, t) == s * s,
        cross(p, t, c) == 0,
        dot(p, t, c) >= 0,
    ensures
        displaced(p, c, Mode::Pull, s) == Some(t),
{
    let n = dist_sq(p, c);
    lemma_dist_sq(p, c);
    lemma_dist_sq(p, t);
    lemma_parallel(t.x - p.x, t.y - p.y, c.x - p.x, c.y - p.y, (s * s) as int, n as int);
    lemma_axis_exact(t.x - p.x, c.x - p.x, dot(p, t, c), s, n);
    lemma_axis_exact(t.y - p.y, c.y - p.y, dot(p, t, c), s, n);
}

/// A pushed point that is not under the cursor is drawn at the distance of
/// the reach from its rest position, up to rounding, on the side away from
/// the cursor.
pub proof fn push_keeps_distance(p: Position, c: Position, s: nat)
    requires
        dist_sq(p, c) > 0,
    ensures
        displaced(p, c, Mode::Push, s) matches Some(r) && at_reach(p, r, s) && (r.x - p.x) * (c.x
            - p.x) <= 0 && (r.y - p.y) * (c.y - p.y) <= 0,
{
    let dx = c.x - p.x;
    let dy = c.y - p.y;
    let v = shift_toward(p, c, s);
    lemma_shift_toward(p, c, s);
    let qx = axis_shift(magnitude(dx), s, dist_sq(p, c));
    let qy = axis_shift(magnitude(dy), s, dist_sq(p, c));
    assert(-v.x * dx <= 0) by (nonlinear_arith)
        requires
            v.x == signum(dx) * qx,
            qx >= 0,
    ;
    assert(-v.y * dy <= 0) by (nonlinear_arith)
        requires
            v.y == signum(dy) * qy,
            qy >= 0,
    ;
}

/// Wherever a position `t` with integer coordinates lies exactly at the
/// distance of the reach from `p`, on the ray from `p` that points away from
/// the cursor, a pushed point that is not under the cursor is drawn exactly
/// at `t`.
pub proof fn push_exact(p: Position, c: Position, s: nat, t: Position)
    requires
        dist_sq(p, c) > 0,
        dist_sq(p, t) == s * s,
        cross(p, t, c) == 0,
        dot(p, t, c) <= 0,
    ensures
        displaced(p, c, Mode::Push, s) == Some(t),
{
    let n = dist_sq(p, c);
    lemma_dist_sq(p, c);
    lemma_dist_sq(p, t);
    lemma_parallel(t.x - p.x, t.y - p.y, c.x - p.x, c.y - p.y, (s * s) as int, n as int);
    lemma_axis_exact(t.x - p.x, c.x - p.x, dot(p, t, c), s, n);
    lemma_axis_exact(t.y - p.y, c.y - p.y, dot(p, t, c), s, n);
}

/// The integer square root of the quotient of `a * a * s * s` by `n` is
/// `a * s / sqrt(n)` rounded down.
proof fn lemma_root_of_quotient(a: nat, s: nat, n: nat)
    requires
        n > 0,
    ensures
        is_axis_shift(floor_sqrt(((a * a) * (s * s)) / n), a, s, n),
{
    let t = (a * a) * (s * s);
    let m = t / n;
    let q = floor_sqrt(m);
    lemma_floor_sqrt(m);
    assert(m * n <= t < (m + 1) * n) by (nonlinear_arith)
        requires
            n > 0,
            m == t / n,
    ;
    assert(q * q * n <= m * n) by (nonlinear_arith)
        requires
            q * q <= m,
    ;
    assert((m + 1) * n <= (q + 1) * (q + 1) * n) by (nonlinear_arith)
        requires
            m + 1 <= (q + 1) * (q + 1),
    ;
}

/// Where the cursor is not at the rest position, the shift along an axis
/// exists: `axis_shift` is `a * s / sqrt(n)` rounded down.
pub proof fn lemma_axis_shift_bounds(a: nat, s: nat, n: nat)
    requires
        n > 0,
    ensures
        is_axis_shift(axis_shift(a, s, n), a, s, n),
{
    lemma_root_of_quotient(a, s, n);
}

/// The shift along an axis is unique: any number that is `a * s / sqrt(n)`
/// rounded down is `axis_shift`.
pub proof fn lemma_axis_shift_unique(q: nat, a: nat, s: nat, n: nat)
    requires
        n > 0,
        is_axis_shift(q, a, s, n),
    ensures
        axis_shift(a, s, n) == q,
{
    let r = axis_shift(a, s, n);
    lemma_axis_shift_bounds(a, s, n);
    if q < r {
        lemma_square_monotonic(q + 1, r);
        assert((q + 1) * (q + 1) * n <= r * r * n) by (nonlinear_arith)
            requires
                (q + 1) * (q + 1) <= r * r,
        ;
    } else if r < q {
        lemma_square_monotonic(r + 1, q);
        assert((r + 1) * (r + 1) * n <= q * q * n) by (nonlinear_arith)
            requires
                (r + 1) * (r + 1) <= q * q,
        ;
    }
}

/// Computes `axis_shift` in machine integers.
fn compute_axis_shift(a: u64, s: u64, n: u128) -> (q: u64)
    requires
        a <= 0xFFFF_FFFF,
        s <= 0xFFFF_FFFF,
        n > 0,
    ensures
        q == axis_shift(a as nat, s as nat, n as nat),
{
    assert(a * a <= 0xFFFF_FFFF * 0xFFFF_FFFF && s * s <= 0xFFFF_FFFF * 0xFFFF_FFFF)
        by (nonlinear_arith)
        requires
            a <= 0xFFFF_FFFF,
            s <= 0xFFFF_FFFF,
    ;
    let aa: u128 = (a as u128) * (a as u128);
    let ss: u128 = (s as u128) * (s as u128);
    assert(aa * ss <= u128::MAX) by (nonlinear_arith)
        requires
            aa <= 0xFFFF_FFFF * 0xFFFF_FFFF,
            ss <= 0xFFFF_FFFF * 0xFFFF_FFFF,
    ;
    let q: u64 = isqrt(aa * ss / n);
    proof {
        lemma_root_of_quotient(a as nat, s as nat, n as nat);
        lemma_axis_shift_unique(q as nat, a as nat, s as nat, n as nat);
    }
    q
}

/// The coordinate `length` away from `origin`, on the side that `delta`
/// points to, or on the other side if `away` is set.
fn step(origin: i32, delta: i64, length: u64, away: bool) -> (r: i32)
    requires
        length <= 0xFFFF_FFFF,
        !away ==> i32::MIN <= origin + signum(delta as int) * length <= i32::MAX,
        away ==> i32::MIN <= origin - signum(delta as int) * length <= i32::MAX,
    ensures
        r == if away {
            origin - signum(delta as int) * length
        } else {
            origin + signum(delta as int) * length
        },
{
    let forward: bool = (delta > 0) != away;
    if delta == 0 {
        origin
    } else if forward {
        (origin as i64 + length as i64) as i32
    } else {
        (origin as i64 - length as i64) as i32
    }
}

/// The absolute value of a difference of two coordinates.
fn span(from: i32, to: i32) -> (a: u64)
    ensures
        a == magnitude(to - from),
        a <= 0xFFFF_FFFF,
{
    let delta: i64 = to as i64 - from as i64;
    if delta >= 0 {
        delta as u64
    } else {
        (-delta) as u64
    }
}

/// A point never moves farther along an axis than the reach.
proof fn lemma_axis_shift_within_reach(a: nat, s: nat, n: nat)
    requires
        n > 0,
        a * a <= n,
    ensures
        axis_shift(a, s, n) <= s,
{
    let q = axis_shift(a, s, n);
    lemma_axis_shift_bounds(a, s, n);
    assert(q * q <= s * s) by (nonlinear_arith)
        requires
            n > 0,
            a * a <= n,
            q * q * n <= (a * a) * (s * s),
    ;
    if q > s {
        lemma_square_monotonic(s, q);
    }
}

/// A point farther from the cursor than the reach does not move past the
/// cursor along either axis.
proof fn lemma_axis_shift_stops_short(a: nat, s: nat, n: nat)
    requires
        s * s < n,
        a * a <= n,
    ensures
        axis_shift(a, s, n) <= a,
{
    let q = axis_shift(a, s, n);
    lemma_axis_shift_bounds(a, s, n);
    assert(q * q <= a * a) by (nonlinear_arith)
        requires
            s * s < n,
            q * q * n <= (a * a) * (s * s),
    ;
    if q > a {
        lemma_square_monotonic(a, q);
    }
}

/// A point does not move along an axis on which it is level with the cursor.
proof fn lemma_axis_shift_level(s: nat, n: nat)
    requires
        n > 0,
    ensures
        axis_shift(0, s, n) == 0,
{
    assert(0 * 0 * n <= (0 * 0) * (s * s) < (0 + 1) * (0 + 1) * n) by (nonlinear_arith)
        requires
            n > 0,
    ;
    lemma_axis_shift_unique(0, 0, s, n);
}

/// A length carried to the side that `delta` points to is at most as long.
proof fn lemma_signed_length(delta: int, length: nat)
    ensures
        -length <= signum(delta) * length <= length,
        magnitude(signum(delta) * length) == if delta == 0 {
            0
        } else {
            length
        },
{
    assert(1 * length == length && (-1) * length == -length && 0 * length == 0)
        by (nonlinear_arith);
}

/// The vector by which a point moves has the reach as its length, up to
/// rounding, and each of its components has the sign of the cursor's offset
/// and the magnitude of the shift along that axis.
proof fn lemma_shift_toward(p: Position, c: Position, s: nat)
    requires
        dist_sq(p, c) > 0,
    ensures
        ({
            let v = shift_toward(p, c, s);
            let r = Position { x: p.x + v.x, y: p.y + v.y };
            let m = Position { x: p.x - v.x, y: p.y - v.y };
            &&& magnitude(v.x) == axis_shift(magnitude(c.x - p.x), s, dist_sq(p, c))
            &&& magnitude(v.y) == axis_shift(magnitude(c.y - p.y), s, dist_sq(p, c))
            &&& at_reach(p, r, s)
            &&& at_reach(p, m, s)
        }),
{
    let dx = c.x - p.x;
    let dy = c.y - p.y;
    let a = magnitude(dx);
    let b = magnitude(dy);
    let n = dist_sq(p, c);
    let qx = axis_shift(a, s, n);
    let qy = axis_shift(b, s, n);
    lemma_magnitude_square(dx);
    lemma_magnitude_square(dy);
    lemma_axis_shift_bounds(a, s, n);
    lemma_axis_shift_bounds(b, s, n);
    if dx == 0 {
        lemma_axis_shift_level(s, n);
    }
    if dy == 0 {
        lemma_axis_shift_level(s, n);
    }
    lemma_signed_length(dx, qx);
    lemma_signed_length(dy, qy);
    assert(qx * qx + qy * qy <= s * s) by (nonlinear_arith)
        requires
            n > 0,
            n == a * a + b * b,
            qx * qx * n <= (a * a) * (s * s),
            qy * qy * n <= (b * b) * (s * s),
    ;
    assert(s * s < (qx + 1) * (qx + 1) + (qy + 1) * (qy + 1)) by (nonlinear_arith)
        requires
            n > 0,
            n == a * a + b * b,
            (a * a) * (s * s) < (qx + 1) * (qx + 1) * n,
            (b * b) * (s * s) < (qy + 1) * (qy + 1) * n,
    ;
}

/// What follows for a vector `(ux, uy)` of squared length `ss` that lies on
/// one line with a vector `(dx, dy)` of squared length `n`.
proof fn lemma_parallel(ux: int, uy: int, dx: int, dy: int, ss: int, n: int)
    requires
        ux * dy == uy * dx,
        ux * ux + uy * uy == ss,
        dx * dx + dy * dy == n,
    ensures
        ux * ux * n == (dx * dx) * ss,
        uy * uy * n == (dy * dy) * ss,
        dx * (ux * dx + uy * dy) == ux * n,
        dy * (ux * dx + uy * dy) == uy * n,
{
    let k = ux * dy;
    assert(ux * ux * n == (ux * dx) * (ux * dx) + k * k) by (nonlinear_arith)
        requires
            k == ux * dy,
            n == dx * dx + dy * dy,
    ;
    assert((dx * dx) * ss == (ux * dx) * (ux * dx) + k * k) by (nonlinear_arith)
        requires
            k == uy * dx,
            ss == ux * ux + uy * uy,
    ;
    assert(uy * uy * n == k * k + (uy * dy) * (uy * dy)) by (nonlinear_arith)
        requires
            k == uy * dx,
            n == dx * dx + dy * dy,
    ;
    assert((dy * dy) * ss == k * k + (uy * dy) * (uy * dy)) by (nonlinear_arith)
        requires
            k == ux * dy,
            ss == ux * ux + uy * uy,
    ;
    assert(dx * (ux * dx + uy * dy) == ux * (dx * dx) + k * dy) by (nonlinear_arith)
        requires
            k == uy * dx,
    ;
    assert(ux * n == ux * (dx * dx) + k * dy) by (nonlinear_arith)
        requires
            k == ux * dy,
            n == dx * dx + dy * dy,
    ;
    assert(dy * (ux * dx + uy * dy) == k * dx + uy * (dy * dy)) by (nonlinear_arith)
        requires
            k == ux * dy,
    ;
    assert(uy * n == k * dx + uy * (dy * dy)) by (nonlinear_arith)
        requires
            k == uy * dx,
            n == dx * dx + dy * dy,
    ;
}

/// Along one axis: a component `u` of a vector that lies on one line with
/// the cursor's offset and has the reach as its exact length is the shift
/// along that axis, with the sign that `side` gives it.
proof fn lemma_axis_exact(u: int, d: int, side: int, s: nat, n: nat)
    requires
        n > 0,
        u * u * n == (d * d) * (s * s),
        d * side == u * n,
    ensures
        side >= 0 ==> signum(d) * axis_shift(magnitude(d), s, n) == u,
        side <= 0 ==> signum(d) * axis_shift(magnitude(d), s, n) == -u,
{
    let q = magnitude(u);
    let a = magnitude(d);
    lemma_magnitude_square(u);
    lemma_magnitude_square(d);
    assert(q * q * n < (q + 1) * (q + 1) * n) by (nonlinear_arith)
        requires
            n > 0,
            q >= 0,
    ;
    lemma_axis_shift_unique(q, a, s, n);
    lemma_signed_length(d, q);
    if u != 0 {
        assert(u * n != 0) by (nonlinear_arith)
            requires
                u != 0,
                n > 0,
        ;
        assert(d != 0 && side != 0) by (nonlinear_arith)
            requires
                d * side != 0,
        ;
        assert((u > 0) == ((d > 0) == (side > 0))) by (nonlinear_arith)
            requires
                d * side == u * n,
                n > 0,
                u != 0,
                d != 0,
                side != 0,
        ;
    }
}

} // verus!
