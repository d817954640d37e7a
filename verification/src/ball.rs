//! Bouncing balls: straight-line motion with a velocity flip at the walls.

use vstd::prelude::*;
use crate::color::Color;
use crate::geometry::{clamp, clamp_to, Vector2, COORD_LIMIT, WINDOW_SIZE_X, WINDOW_SIZE_Y};

verus! {

/// A ball. `position` is the corner of its bounding box nearest the origin,
/// so the ball covers `[position, position + 2 * radius]` on each axis.
/// `velocity` is in units per microsecond.
#[derive(Clone, Copy, Debug, PartialEq, Eq, Structural)]
pub struct Ball {
    pub position: Vector2,
    pub velocity: Vector2,
    pub radius: i64,
    pub color: Color,
}

/// Where a coordinate lands after moving at `speed` for `dt` microseconds,
/// before any limit is applied.
pub open spec fn projected(coordinate: i64, speed: i64, dt: u64) -> int {
    coordinate + speed * dt
}

/// Whether a bounding box of side `2 * radius` placed at `coordinate` sticks
/// out of a field of the given `size` on this axis.
pub open spec fn outside_field(coordinate: int, radius: i64, size: i64) -> bool {
    coordinate < 0 || coordinate > size - 2 * radius
}

/// The speed on one axis after a move that ends at `coordinate`: reversed if
/// the ball then sticks out of the field, unchanged otherwise.
pub open spec fn reflected(speed: i64, coordinate: int, radius: i64, size: i64) -> int {
    if outside_field(coordinate, radius, size) {
        -speed
    } else {
        speed as int
    }
}

impl Ball {
    /// All numbers are within the storable range and the radius is not
    /// negative.
    pub open spec fn wf(self) -> bool {
        &&& self.position.in_range()
        &&& self.velocity.in_range()
        &&& 0 <= self.radius <= COORD_LIMIT
    }

    /// The centre of the ball.
    pub open spec fn center(self) -> Vector2 {
        self.position.shifted(self.radius as int)
    }

    /// The ball after `dt` microseconds. The position advances by
    /// `velocity * dt` and is kept within the coordinate limit; on each axis
    /// the speed is reversed when the advanced position sticks out of the
    /// field. The position is not pushed back inside.
    pub open spec fn updated(self, dt: u64) -> Ball {
        let x = projected(self.position.x, self.velocity.x, dt);
        let y = projected(self.position.y, self.velocity.y, dt);
        Ball {
            position: Vector2 {
                x: clamp(x, -COORD_LIMIT, COORD_LIMIT as int) as i64,
                y: clamp(y, -COORD_LIMIT, COORD_LIMIT as int) as i64,
            },
            velocity: Vector2 {
                x: reflected(self.velocity.x, x, self.radius, WINDOW_SIZE_X) as i64,
                y: reflected(self.velocity.y, y, self.radius, WINDOW_SIZE_Y) as i64,
            },
            radius: self.radius,
            color: self.color,
        }
    }

    pub fn new(position: Vector2, velocity: Vector2, radius: i64, color: Color) -> (ball: Ball)
        ensures
            ball == (Ball { position, velocity, radius, color }),
    {
        Ball { position, velocity, radius, color }
    }

    /// Tells whether the ball's numbers are all within the storable range.
    pub fn is_valid(&self) -> (ok: bool)
        ensures
            ok == self.wf(),
    {
        -COORD_LIMIT <= self.position.x && self.position.x <= COORD_LIMIT
            && -COORD_LIMIT <= self.position.y && self.position.y <= COORD_LIMIT
            && -COORD_LIMIT <= self.velocity.x && self.velocity.x <= COORD_LIMIT
            && -COORD_LIMIT <= self.velocity.y && self.velocity.y <= COORD_LIMIT
            && 0 <= self.radius && self.radius <= COORD_LIMIT
    }

    /// Computes the centre of the ball.
    pub fn get_center(&self) -> (c: Vector2)
        requires
            self.wf(),
        ensures
            c == self.center(),
            c.within(2 * COORD_LIMIT),
    {
        self.position.offset_by(self.radius)
    }

    /// Advances the ball by `dt` microseconds.
    pub fn update(&mut self, dt: u64)
        requires
            old(self).wf(),
        ensures
            *final(self) == old(self).updated(dt),
            final(self).wf(),
    {
        let (x, vx) = advance_axis(self.position.x, self.velocity.x, self.radius, WINDOW_SIZE_X, dt);
        let (y, vy) = advance_axis(self.position.y, self.velocity.y, self.radius, WINDOW_SIZE_Y, dt);
        self.position = Vector2 { x, y };
        self.velocity = Vector2 { x: vx, y: vy };
    }
}

/// Moves one coordinate for `dt` microseconds and reflects its speed at the
/// walls of a field of the given `size`.
fn advance_axis(coordinate: i64, speed: i64, radius: i64, size: i64, dt: u64) -> (r: (i64, i64))
    requires
        -COORD_LIMIT <= coordinate <= COORD_LIMIT,
        -COORD_LIMIT <= speed <= COORD_LIMIT,
        0 <= radius <= COORD_LIMIT,
        0 <= size <= COORD_LIMIT,
    ensures
        r.0 == clamp(projected(coordinate, speed, dt), -COORD_LIMIT, COORD_LIMIT as int),
        r.1 == reflected(speed, projected(coordinate, speed, dt), radius, size),
        -COORD_LIMIT <= r.0 <= COORD_LIMIT,
        -COORD_LIMIT <= r.1 <= COORD_LIMIT,
{
    let wide_speed: i128 = speed as i128;
    let wide_dt: i128 = dt as i128;
    assert(-COORD_LIMIT * 0x1_0000_0000_0000_0000 <= wide_speed * wide_dt
        <= COORD_LIMIT * 0x1_0000_0000_0000_0000) by (nonlinear_arith)
        requires
            -COORD_LIMIT <= wide_speed <= COORD_LIMIT,
            0 <= wide_dt < 0x1_0000_0000_0000_0000,
    ;
    let target: i128 = coordinate as i128 + wide_speed * wide_dt;
    let limit: i128 = size as i128 - 2 * (radius as i128);
    let new_speed: i64 = if target < 0 || target > limit {
        -speed
    } else {
        speed
    };
    (clamp_to(target, -COORD_LIMIT, COORD_LIMIT), new_speed)
}

/// A wall contact reverses the direction on that axis and nothing else: on
/// each axis the speed after an update is the old speed, negated exactly when
/// the advanced position sticks out of `[0, size - 2 * radius]`, so its
/// magnitude never changes. Radius and colour are kept.
pub proof fn lemma_bounce_flips_sign_only(ball: Ball, dt: u64)
    requires
        ball.wf(),
    ensures
        ball.updated(dt).wf(),
        ball.updated(dt).velocity.x == -ball.velocity.x <==> (ball.velocity.x == 0 || outside_field(
            projected(ball.position.x, ball.velocity.x, dt),
            ball.radius,
            WINDOW_SIZE_X,
        )),
        ball.updated(dt).velocity.x == ball.velocity.x <==> (ball.velocity.x == 0 || !outside_field(
            projected(ball.position.x, ball.velocity.x, dt),
            ball.radius,
            WINDOW_SIZE_X,
        )),
        ball.updated(dt).velocity.y == -ball.velocity.y <==> (ball.velocity.y == 0 || outside_field(
            projected(ball.position.y, ball.velocity.y, dt),
            ball.radius,
            WINDOW_SIZE_Y,
        )),
        ball.updated(dt).velocity.y == ball.velocity.y <==> (ball.velocity.y == 0 || !outside_field(
            projected(ball.position.y, ball.velocity.y, dt),
            ball.radius,
            WINDOW_SIZE_Y,
        )),
        vstd::math::abs(ball.updated(dt).velocity.x as int) == vstd::math::abs(ball.velocity.x as int),
        vstd::math::abs(ball.updated(dt).velocity.y as int) == vstd::math::abs(ball.velocity.y as int),
        ball.updated(dt).radius == ball.radius,
        ball.updated(dt).color == ball.color,
{
}

/// While the advanced position stays within the coordinate limit it is stored
/// exactly, so the ball may overlap a wall by as much as it travelled.
pub proof fn lemma_update_moves_exactly(ball: Ball, dt: u64)
    requires
        ball.wf(),
        -COORD_LIMIT <= projected(ball.position.x, ball.velocity.x, dt) <= COORD_LIMIT,
        -COORD_LIMIT <= projected(ball.position.y, ball.velocity.y, dt) <= COORD_LIMIT,
    ensures
        ball.updated(dt).position.x == ball.position.x + ball.velocity.x * dt,
        ball.updated(dt).position.y == ball.position.y + ball.velocity.y * dt,
{
}

} // verus!
