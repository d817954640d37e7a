//! Fixed-point coordinates, the playing field, and the distance test that
//! every collision rule is built on.
//!
//! Lengths are whole numbers of units, one pixel being [`UNITS_PER_PIXEL`]
//! units. Time is counted in microseconds and speed in units per microsecond,
//! so a displacement is the plain product of a speed and a duration.

use vstd::prelude::*;

verus! {

/// Number of coordinate units in one pixel.
pub const UNITS_PER_PIXEL: i64 = 1_000_000_000;

/// Number of clock ticks (microseconds) in one second.
pub const MICROS_PER_SECOND: u64 = 1_000_000;

/// Width of the playing field: 800 pixels.
pub const WINDOW_SIZE_X: i64 = 800_000_000_000;

/// Height of the playing field: 600 pixels.
pub const WINDOW_SIZE_Y: i64 = 600_000_000_000;

/// Largest magnitude that a stored coordinate, speed or radius may take.
/// Positions that would leave this range stay at its edge.
pub const COORD_LIMIT: i64 = 1_000_000_000_000_000_000;

/// A point or a displacement on the fixed-point grid.
#[derive(Clone, Copy, Debug, PartialEq, Eq, Structural)]
pub struct Vector2 {
    pub x: i64,
    pub y: i64,
}

/// The value closest to `value` inside `[low, high]`.
pub open spec fn clamp(value: int, low: int, high: int) -> int {
    if value < low {
        low
    } else if value > high {
        high
    } else {
        value
    }
}

/// The `u64` closest to `value`.
pub open spec fn saturate_u64(value: int) -> u64 {
    clamp(value, 0, u64::MAX as int) as u64
}

/// The `i64` closest to `value`.
pub open spec fn saturate_i64(value: int) -> i64 {
    clamp(value, i64::MIN as int, i64::MAX as int) as i64
}

/// Squared Euclidean distance between two points.
pub open spec fn distance_squared(a: Vector2, b: Vector2) -> int {
    (a.x - b.x) * (a.x - b.x) + (a.y - b.y) * (a.y - b.y)
}

impl Vector2 {
    /// Both components have magnitude at most `limit`.
    pub open spec fn within(self, limit: int) -> bool {
        &&& -limit <= self.x <= limit
        &&& -limit <= self.y <= limit
    }

    /// Both components are storable coordinates.
    pub open spec fn in_range(self) -> bool {
        self.within(COORD_LIMIT as int)
    }

    /// The point reached from `self` by moving `offset` along both axes.
    pub open spec fn shifted(self, offset: int) -> Vector2 {
        Vector2 { x: (self.x + offset) as i64, y: (self.y + offset) as i64 }
    }

    pub fn new(x: i64, y: i64) -> (v: Vector2)
        ensures
            v.x == x,
            v.y == y,
    {
        Vector2 { x, y }
    }

    /// Moves the point by `offset` along both axes.
    pub fn offset_by(self, offset: i64) -> (v: Vector2)
        requires
            self.in_range(),
            0 <= offset <= COORD_LIMIT,
        ensures
            v == self.shifted(offset as int),
            v.x == self.x + offset,
            v.y == self.y + offset,
            v.within(2 * COORD_LIMIT),
    {
        Vector2 { x: self.x + offset, y: self.y + offset }
    }
}

/// Computes `clamp` on machine integers.
pub fn clamp_to(value: i128, low: i64, high: i64) -> (r: i64)
    requires
        low <= high,
    ensures
        r == clamp(value as int, low as int, high as int),
{
    if value < low as i128 {
        low
    } else if value > high as i128 {
        high
    } else {
        value as i64
    }
}

/// Adds `delta` to `value`, stopping at the ends of the `i64` range.
pub fn saturating_offset(value: i64, delta: i64) -> (r: i64)
    ensures
        r == saturate_i64(value + delta),
{
    clamp_to(value as i128 + delta as i128, i64::MIN, i64::MAX)
}

/// Squares a length that is at most five times the coordinate limit.
pub fn square(length: i64) -> (s: i128)
    requires
        -5 * COORD_LIMIT <= length <= 5 * COORD_LIMIT,
    ensures
        s == length * length,
        0 <= s <= 25 * COORD_LIMIT * COORD_LIMIT,
{
    let wide: i128 = length as i128;
    assert(0 <= wide * wide <= 25 * COORD_LIMIT * COORD_LIMIT) by (nonlinear_arith)
        requires
            -5 * COORD_LIMIT <= wide <= 5 * COORD_LIMIT,
    ;
    wide * wide
}

/// Computes the squared distance between two points whose components have
/// magnitude at most twice the coordinate limit.
pub fn distance_squared_between(a: Vector2, b: Vector2) -> (d: i128)
    requires
        a.within(2 * COORD_LIMIT),
        b.within(2 * COORD_LIMIT),
    ensures
        d == distance_squared(a, b),
        d >= 0,
{
    let dx: i64 = a.x - b.x;
    let dy: i64 = a.y - b.y;
    square(dx) + square(dy)
}

/// The distance is the same measured from either end.
pub proof fn lemma_distance_symmetric(a: Vector2, b: Vector2)
    ensures
        distance_squared(a, b) == distance_squared(b, a),
{
    assert((a.x - b.x) * (a.x - b.x) == (b.x - a.x) * (b.x - a.x)) by (nonlinear_arith);
    assert((a.y - b.y) * (a.y - b.y) == (b.y - a.y) * (b.y - a.y)) by (nonlinear_arith);
}

} // verus!
