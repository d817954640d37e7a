//! Random creation of balls and health boxes.
//!
//! The random numbers come from the `rand` crate. Nothing is known of a draw
//! but the range it lies in, so every function here promises only what holds
//! of each possible outcome.

use vstd::prelude::*;
use rand::Rng;
use crate::ball::Ball;
use crate::color::Color;
use crate::geometry::{Vector2, WINDOW_SIZE_X, WINDOW_SIZE_Y};
use crate::health_box::HEALTH_BOX_SIZE;

verus! {

/// Number of balls at the start of a game.
pub const INITIAL_BALL_COUNT: usize = 5;

/// Largest speed of a new ball on each axis: 150 pixels per second.
pub const MAX_BALL_SPEED: i64 = 150_000;

/// Smallest radius of a new ball: 5 pixels.
pub const MIN_BALL_RADIUS: i64 = 5_000_000_000;

/// Largest radius of a new ball: 20 pixels.
pub const MAX_BALL_RADIUS: i64 = 20_000_000_000;

/// A new ball appears in one tick out of this many.
pub const BALL_SPAWN_ODDS: u32 = 100;

/// What the spawner may produce as a ball: a corner inside the field, a
/// speed of at most `MAX_BALL_SPEED` on each axis, and a radius between
/// `MIN_BALL_RADIUS` and `MAX_BALL_RADIUS`.
pub open spec fn is_spawn_ball(ball: Ball) -> bool {
    &&& 0 <= ball.position.x < WINDOW_SIZE_X
    &&& 0 <= ball.position.y < WINDOW_SIZE_Y
    &&& -MAX_BALL_SPEED <= ball.velocity.x <= MAX_BALL_SPEED
    &&& -MAX_BALL_SPEED <= ball.velocity.y <= MAX_BALL_SPEED
    &&& MIN_BALL_RADIUS <= ball.radius <= MAX_BALL_RADIUS
}

/// Where the spawner may drop a health box: the whole box is inside the
/// field.
pub open spec fn is_spawn_box_position(position: Vector2) -> bool {
    &&& 0 <= position.x < WINDOW_SIZE_X - HEALTH_BOX_SIZE
    &&& 0 <= position.y < WINDOW_SIZE_Y - HEALTH_BOX_SIZE
}

/// Every ball of `balls` is one the spawner may produce.
pub open spec fn all_spawn_balls(balls: Seq<Ball>) -> bool {
    forall|i: int| 0 <= i < balls.len() ==> is_spawn_ball(#[trigger] balls[i])
}

/// Draws a whole number from `low` to `high`, both included, with
/// `rand::Rng::gen_range` on the thread's generator. The contract claims only
/// that the draw lies in the range; an empty range, on which `gen_range`
/// panics, is excluded. The generator is seeded by the system on first use.
#[verifier::external_body]
fn random_between(low: i64, high: i64) -> (r: i64)
    requires
        low <= high,
    ensures
        low <= r <= high,
{
    rand::thread_rng().gen_range(low..=high)
}

/// Draws `true` with probability `numerator / denominator` with
/// `rand::Rng::gen_ratio` on the thread's generator. The contract claims what
/// the crate documents of the two certain cases and nothing of the others; a
/// zero denominator and a ratio above one, on which `gen_ratio` panics, are
/// excluded.
#[verifier::external_body]
fn random_chance(numerator: u32, denominator: u32) -> (hit: bool)
    requires
        0 < denominator,
        numerator <= denominator,
    ensures
        numerator == denominator ==> hit,
        numerator == 0 ==> !hit,
{
    rand::thread_rng().gen_ratio(numerator, denominator)
}

/// Draws one colour channel.
fn random_channel() -> u8 {
    let value: i64 = random_between(0, 255);
    value as u8
}

/// Draws a ball: a position inside the field, a velocity, a radius and a
/// colour.
pub fn random_ball() -> (ball: Ball)
    ensures
        is_spawn_ball(ball),
        ball.wf(),
{
    let x: i64 = random_between(0, WINDOW_SIZE_X - 1);
    let y: i64 = random_between(0, WINDOW_SIZE_Y - 1);
    let vx: i64 = random_between(-MAX_BALL_SPEED, MAX_BALL_SPEED);
    let vy: i64 = random_between(-MAX_BALL_SPEED, MAX_BALL_SPEED);
    let radius: i64 = random_between(MIN_BALL_RADIUS, MAX_BALL_RADIUS);
    let r: u8 = random_channel();
    let g: u8 = random_channel();
    let b: u8 = random_channel();
    Ball::new(Vector2 { x, y }, Vector2 { x: vx, y: vy }, radius, Color::rgb(r, g, b))
}

/// Draws `count` balls.
pub fn random_balls(count: usize) -> (balls: Vec<Ball>)
    ensures
        balls@.len() == count,
        all_spawn_balls(balls@),
{
    let mut balls: Vec<Ball> = Vec::new();
    let mut drawn: usize = 0;
    while drawn < count
        invariant
            drawn <= count,
            balls@.len() == drawn,
            all_spawn_balls(balls@),
        decreases count - drawn,
    {
        let ball = random_ball();
        balls.push(ball);
        drawn += 1;
    }
    balls
}

/// Draws the position of a health box.
pub fn random_box_position() -> (position: Vector2)
    ensures
        is_spawn_box_position(position),
        position.in_range(),
{
    let x: i64 = random_between(0, WINDOW_SIZE_X - HEALTH_BOX_SIZE - 1);
    let y: i64 = random_between(0, WINDOW_SIZE_Y - HEALTH_BOX_SIZE - 1);
    Vector2 { x, y }
}

/// Decides whether a ball appears in this tick: one time in
/// `BALL_SPAWN_ODDS`.
pub fn roll_ball_spawn() -> bool {
    random_chance(1, BALL_SPAWN_ODDS)
}

} // verus!
