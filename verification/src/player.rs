//! The player: clamped movement, passive regeneration, and the reactions to
//! touching a ball or a health box.

use vstd::prelude::*;
use crate::ball::Ball;
use crate::color::{next_index, palette, palette_color, previous_index, Color, PALETTE_SIZE};
use crate::geometry::{
    clamp, clamp_to, distance_squared, distance_squared_between, saturate_i64, saturate_u64,
    saturating_offset, square, Vector2, COORD_LIMIT, WINDOW_SIZE_X, WINDOW_SIZE_Y,
};
use crate::health_box::{HealthBox, HEALTH_BOX_HEAL_AMOUNT, HEALTH_BOX_SIZE};

verus! {

/// Radius of the player: 20 pixels.
pub const PLAYER_RADIUS: i64 = 20_000_000_000;

/// Speed of the player on each axis: 300 pixels per second.
pub const PLAYER_SPEED: i64 = 300_000;

/// Hit points at the start of a game.
pub const INITIAL_HP: i64 = 10;

/// Time without a hit after which one hit point is restored: 5 seconds.
pub const HP_REGEN_INTERVAL: u64 = 5_000_000;

/// Largest x at which the player's bounding box is inside the field.
pub const PLAYER_MAX_X: i64 = 760_000_000_000;

/// Largest y at which the player's bounding box is inside the field.
pub const PLAYER_MAX_Y: i64 = 560_000_000_000;

/// The directions that are held down during a tick.
#[derive(Clone, Copy, Debug, PartialEq, Eq, Structural)]
pub struct Controls {
    pub up: bool,
    pub down: bool,
    pub left: bool,
    pub right: bool,
}

/// The player. `position` is the corner of the bounding box nearest the
/// origin. `time_since_last_hit` counts down to the next restored hit point.
#[derive(Clone, Copy, Debug, PartialEq, Eq, Structural)]
pub struct Player {
    pub position: Vector2,
    pub hp: i64,
    pub survival_time: u64,
    pub time_since_last_hit: u64,
    pub current_color_index: usize,
    pub hits: u64,
    pub bonuses: u64,
}

/// One coordinate after a key press that moves it by `step`: the move is cut
/// short at the ends of `[0, max]`. Without the key nothing moves.
pub open spec fn slide(coordinate: i64, step: int, pressed: bool, max: i64) -> int {
    if pressed {
        clamp(coordinate + step, 0, max as int)
    } else {
        coordinate as int
    }
}

/// One coordinate after a tick in which the key toward the origin and the key
/// away from it may both be held: the first is applied, then the second.
pub open spec fn steered(coordinate: i64, step: int, toward: bool, away: bool, max: i64) -> int {
    slide(slide(coordinate, -step, toward, max) as i64, step, away, max)
}

impl Controls {
    /// No direction held.
    pub fn none() -> (c: Controls)
        ensures
            c == (Controls { up: false, down: false, left: false, right: false }),
    {
        Controls { up: false, down: false, left: false, right: false }
    }
}

impl Player {
    /// The position is storable and the colour index points into the palette.
    pub open spec fn wf(self) -> bool {
        &&& self.position.in_range()
        &&& self.current_color_index < PALETTE_SIZE
    }

    /// The bounding box lies inside the field.
    pub open spec fn in_field(self) -> bool {
        &&& 0 <= self.position.x <= PLAYER_MAX_X
        &&& 0 <= self.position.y <= PLAYER_MAX_Y
    }

    /// The centre of the player.
    pub open spec fn center(self) -> Vector2 {
        self.position.shifted(PLAYER_RADIUS as int)
    }

    /// The selected palette colour.
    pub open spec fn color(self) -> Color {
        palette()[self.current_color_index as int]
    }

    /// Whether the countdown runs out within the next `dt` microseconds.
    pub open spec fn regen_due(self, dt: u64) -> bool {
        self.time_since_last_hit - dt <= 0
    }

    /// The player after a tick of `dt` microseconds with `controls` held.
    /// Each held direction moves the player by `PLAYER_SPEED * dt`, cut short
    /// at the edge of the field. The survival time grows by `dt`. The
    /// countdown drops by `dt`; when it runs out, one hit point and one bonus
    /// are added and the countdown starts again.
    pub open spec fn updated(self, dt: u64, controls: Controls) -> Player {
        let step = PLAYER_SPEED * dt;
        let bonus = self.regen_due(dt);
        Player {
            position: Vector2 {
                x: steered(self.position.x, step, controls.left, controls.right, PLAYER_MAX_X) as i64,
                y: steered(self.position.y, step, controls.up, controls.down, PLAYER_MAX_Y) as i64,
            },
            hp: if bonus {
                saturate_i64(self.hp + 1)
            } else {
                self.hp
            },
            survival_time: saturate_u64(self.survival_time + dt),
            time_since_last_hit: if bonus {
                HP_REGEN_INTERVAL
            } else {
                (self.time_since_last_hit - dt) as u64
            },
            current_color_index: self.current_color_index,
            hits: self.hits,
            bonuses: if bonus {
                saturate_u64(self.bonuses + 1)
            } else {
                self.bonuses
            },
        }
    }

    /// Whether the player overlaps `ball`: the centres are strictly closer
    /// than the sum of the radii.
    pub open spec fn collides_with_ball(self, ball: Ball) -> bool {
        distance_squared(self.center(), ball.center()) < (PLAYER_RADIUS + ball.radius) * (
        PLAYER_RADIUS + ball.radius)
    }

    /// Whether the player reaches `health_box`: the stored positions of the
    /// two, each the corner nearest the origin, are strictly closer than the
    /// player's radius plus half the side of the box.
    pub open spec fn collides_with_health_box(self, health_box: HealthBox) -> bool {
        distance_squared(self.position, health_box.position) < (PLAYER_RADIUS + HEALTH_BOX_SIZE / 2)
            * (PLAYER_RADIUS + HEALTH_BOX_SIZE / 2)
    }

    /// The player after `count` balls hit it one after the other: each hit
    /// costs one hit point, and any hit restarts the countdown.
    pub open spec fn after_hits(self, count: nat) -> Player {
        if count == 0 {
            self
        } else {
            Player {
                hp: saturate_i64(self.hp - count),
                hits: saturate_u64(self.hits + count),
                time_since_last_hit: HP_REGEN_INTERVAL,
                ..self
            }
        }
    }

    /// The player after picking up `count` health boxes.
    pub open spec fn after_heals(self, count: nat) -> Player {
        Player { hp: saturate_i64(self.hp + HEALTH_BOX_HEAL_AMOUNT * count), ..self }
    }

    /// A fresh player at `position`, with the first palette colour and a
    /// countdown that has already run out.
    pub fn new(position: Vector2) -> (player: Player)
        ensures
            player == (Player {
                position,
                hp: INITIAL_HP,
                survival_time: 0,
                time_since_last_hit: 0,
                current_color_index: 0,
                hits: 0,
                bonuses: 0,
            }),
    {
        Player {
            position,
            hp: INITIAL_HP,
            survival_time: 0,
            time_since_last_hit: 0,
            current_color_index: 0,
            hits: 0,
            bonuses: 0,
        }
    }

    /// Selects the next palette colour, wrapping after the last.
    pub fn select_next_color(&mut self)
        requires
            old(self).wf(),
        ensures
            *final(self) == (Player {
                current_color_index: next_index(old(self).current_color_index as int) as usize,
                ..*old(self)
            }),
            final(self).wf(),
    {
        self.current_color_index = (self.current_color_index + 1) % PALETTE_SIZE;
    }

    /// Selects the previous palette colour, wrapping before the first.
    pub fn select_previous_color(&mut self)
        requires
            old(self).wf(),
        ensures
            *final(self) == (Player {
                current_color_index: previous_index(old(self).current_color_index as int) as usize,
                ..*old(self)
            }),
            final(self).wf(),
    {
        if self.current_color_index == 0 {
            self.current_color_index = PALETTE_SIZE - 1;
        } else {
            self.current_color_index -= 1;
        }
    }

    /// Tells whether the player's numbers are storable.
    pub fn is_valid(&self) -> (ok: bool)
        ensures
            ok == self.wf(),
    {
        -COORD_LIMIT <= self.position.x && self.position.x <= COORD_LIMIT
            && -COORD_LIMIT <= self.position.y && self.position.y <= COORD_LIMIT
            && self.current_color_index < PALETTE_SIZE
    }

    /// The selected palette colour.
    pub fn get_color(&self) -> (c: Color)
        requires
            self.wf(),
        ensures
            c == self.color(),
    {
        palette_color(self.current_color_index)
    }

    /// Computes the centre of the player.
    pub fn get_center(&self) -> (c: Vector2)
        requires
            self.wf(),
        ensures
            c == self.center(),
            c.within(2 * COORD_LIMIT),
    {
        self.position.offset_by(PLAYER_RADIUS)
    }

    /// Squared distance from the player's stored position to `point`.
    pub fn get_distance_squared_to(&self, point: Vector2) -> (d: i128)
        requires
            self.wf(),
            point.within(2 * COORD_LIMIT),
        ensures
            d == distance_squared(self.position, point),
    {
        distance_squared_between(self.position, point)
    }

    /// Advances the player by `dt` microseconds with `controls` held, and
    /// tells whether a hit point was restored.
    pub fn update(&mut self, dt: u64, controls: Controls) -> (bonus: bool)
        requires
            old(self).wf(),
        ensures
            *final(self) == old(self).updated(dt, controls),
            bonus == old(self).regen_due(dt),
            final(self).wf(),
    {
        let wide_dt: i128 = dt as i128;
        assert(0 <= PLAYER_SPEED * wide_dt <= PLAYER_SPEED * 0x1_0000_0000_0000_0000)
            by (nonlinear_arith)
            requires
                0 <= wide_dt < 0x1_0000_0000_0000_0000,
                PLAYER_SPEED == 300_000,
        ;
        let step: i128 = PLAYER_SPEED as i128 * wide_dt;
        let x = steer_axis(self.position.x, step, controls.left, controls.right, PLAYER_MAX_X);
        let y = steer_axis(self.position.y, step, controls.up, controls.down, PLAYER_MAX_Y);
        self.position = Vector2 { x, y };
        self.survival_time = self.survival_time.saturating_add(dt);
        if dt >= self.time_since_last_hit {
            self.hp = saturating_offset(self.hp, 1);
            self.bonuses = self.bonuses.saturating_add(1);
            self.time_since_last_hit = HP_REGEN_INTERVAL;
            true
        } else {
            self.time_since_last_hit = self.time_since_last_hit - dt;
            false
        }
    }

    /// Tests `ball` against the player. On contact the player loses a hit
    /// point, counts the hit and restarts the countdown.
    pub fn check_collision_with_ball(&mut self, ball: &Ball) -> (hit: bool)
        requires
            old(self).wf(),
            ball.wf(),
        ensures
            hit == old(self).collides_with_ball(*ball),
            *final(self) == if hit {
                old(self).after_hits(1)
            } else {
                *old(self)
            },
            final(self).wf(),
    {
        let reach: i64 = PLAYER_RADIUS + ball.radius;
        if distance_squared_between(self.get_center(), ball.get_center()) < square(reach) {
            self.hp = saturating_offset(self.hp, -1);
            self.time_since_last_hit = HP_REGEN_INTERVAL;
            self.hits = self.hits.saturating_add(1);
            true
        } else {
            false
        }
    }

    /// Tests `health_box` against the player. On contact the player gains
    /// the heal amount.
    pub fn check_collision_with_health_box(&mut self, health_box: &HealthBox) -> (picked: bool)
        requires
            old(self).wf(),
            health_box.wf(),
        ensures
            picked == old(self).collides_with_health_box(*health_box),
            *final(self) == if picked {
                old(self).after_heals(1)
            } else {
                *old(self)
            },
            final(self).wf(),
    {
        let reach: i64 = PLAYER_RADIUS + HEALTH_BOX_SIZE / 2;
        if self.get_distance_squared_to(health_box.position) < square(reach) {
            self.hp = saturating_offset(self.hp, HEALTH_BOX_HEAL_AMOUNT);
            true
        } else {
            false
        }
    }
}

/// Moves one coordinate for the keys held on its axis.
fn steer_axis(coordinate: i64, step: i128, toward: bool, away: bool, max: i64) -> (r: i64)
    requires
        0 <= max <= COORD_LIMIT,
        0 <= step <= PLAYER_SPEED * 0x1_0000_0000_0000_0000,
    ensures
        r == steered(coordinate, step as int, toward, away, max),
        -COORD_LIMIT <= coordinate <= COORD_LIMIT ==> -COORD_LIMIT <= r <= COORD_LIMIT,
{
    let first: i64 = if toward {
        clamp_to(coordinate as i128 - step, 0, max)
    } else {
        coordinate
    };
    if away {
        clamp_to(first as i128 + step, 0, max)
    } else {
        first
    }
}

/// Movement keeps the player's bounding box inside the field: after a tick
/// with a key held on an axis the coordinate on that axis lies in
/// `[0, max]` wherever it was before, and a player inside the field stays
/// inside it whatever is held.
pub proof fn lemma_movement_stays_in_field(player: Player, dt: u64, controls: Controls)
    ensures
        controls.left || controls.right ==> 0 <= player.updated(dt, controls).position.x
            <= PLAYER_MAX_X,
        controls.up || controls.down ==> 0 <= player.updated(dt, controls).position.y
            <= PLAYER_MAX_Y,
        !controls.left && !controls.right ==> player.updated(dt, controls).position.x
            == player.position.x,
        !controls.up && !controls.down ==> player.updated(dt, controls).position.y
            == player.position.y,
        player.in_field() ==> player.updated(dt, controls).in_field(),
        PLAYER_MAX_X == WINDOW_SIZE_X - 2 * PLAYER_RADIUS,
        PLAYER_MAX_Y == WINDOW_SIZE_Y - 2 * PLAYER_RADIUS,
{
}

/// Contact is strict. A ball whose centre is exactly the sum of the radii
/// away from the player's centre does not collide; one that is one unit
/// closer along an axis does; and the test gives the same answer measured
/// from the ball to the player.
pub proof fn lemma_collision_is_strict(player: Player, ball: Ball)
    requires
        player.wf(),
        ball.wf(),
    ensures
        player.collides_with_ball(ball) <==> distance_squared(ball.center(), player.center()) < (
        PLAYER_RADIUS + ball.radius) * (PLAYER_RADIUS + ball.radius),
        distance_squared(player.center(), ball.center()) == (PLAYER_RADIUS + ball.radius) * (
        PLAYER_RADIUS + ball.radius) ==> !player.collides_with_ball(ball),
        ball.center().y == player.center().y && ball.center().x - player.center().x
            == PLAYER_RADIUS + ball.radius ==> !player.collides_with_ball(ball),
        ball.center().y == player.center().y && ball.center().x - player.center().x
            == PLAYER_RADIUS + ball.radius - 1 ==> player.collides_with_ball(ball),
        ball.center().x == player.center().x && player.center().y - ball.center().y
            == PLAYER_RADIUS + ball.radius ==> !player.collides_with_ball(ball),
        ball.center().x == player.center().x && player.center().y - ball.center().y
            == PLAYER_RADIUS + ball.radius - 1 ==> player.collides_with_ball(ball),
{
    crate::geometry::lemma_distance_symmetric(player.center(), ball.center());
    let reach = PLAYER_RADIUS + ball.radius;
    let dx = player.center().x - ball.center().x;
    let dy = player.center().y - ball.center().y;
    assert((reach - 1) * (reach - 1) < reach * reach) by (nonlinear_arith)
        requires
            reach >= 1,
    ;
    assert((-reach) * (-reach) == reach * reach) by (nonlinear_arith);
    assert((-(reach - 1)) * (-(reach - 1)) == (reach - 1) * (reach - 1)) by (nonlinear_arith);
    assert(dx == 0 ==> dx * dx == 0);
    assert(dy == 0 ==> dy * dy == 0);
}

/// Reaching a health box is strict too, and is measured between the stored
/// positions. A box whose position is exactly the player's radius plus half
/// the side of the box away from the player's position is not picked up; one
/// that is one unit closer along an axis is; and the test gives the same
/// answer measured from the box to the player.
pub proof fn lemma_pickup_is_strict(player: Player, health_box: HealthBox)
    requires
        player.wf(),
        health_box.wf(),
    ensures
        player.collides_with_health_box(health_box) <==> distance_squared(
            health_box.position,
            player.position,
        ) < (PLAYER_RADIUS + HEALTH_BOX_SIZE / 2) * (PLAYER_RADIUS + HEALTH_BOX_SIZE / 2),
        distance_squared(player.position, health_box.position) == (PLAYER_RADIUS + HEALTH_BOX_SIZE
            / 2) * (PLAYER_RADIUS + HEALTH_BOX_SIZE / 2) ==> !player.collides_with_health_box(
            health_box,
        ),
        health_box.position.x == player.position.x && health_box.position.y - player.position.y
            == PLAYER_RADIUS + HEALTH_BOX_SIZE / 2 ==> !player.collides_with_health_box(health_box),
        health_box.position.x == player.position.x && health_box.position.y - player.position.y
            == PLAYER_RADIUS + HEALTH_BOX_SIZE / 2 - 1 ==> player.collides_with_health_box(
            health_box,
        ),
        health_box.position.y == player.position.y && player.position.x - health_box.position.x
            == PLAYER_RADIUS + HEALTH_BOX_SIZE / 2 ==> !player.collides_with_health_box(health_box),
        health_box.position.y == player.position.y && player.position.x - health_box.position.x
            == PLAYER_RADIUS + HEALTH_BOX_SIZE / 2 - 1 ==> player.collides_with_health_box(
            health_box,
        ),
{
    crate::geometry::lemma_distance_symmetric(player.position, health_box.position);
    let reach = PLAYER_RADIUS + HEALTH_BOX_SIZE / 2;
    let dx = player.position.x - health_box.position.x;
    let dy = player.position.y - health_box.position.y;
    assert((reach - 1) * (reach - 1) < reach * reach) by (nonlinear_arith)
        requires
            reach >= 1,
    ;
    assert((-reach) * (-reach) == reach * reach) by (nonlinear_arith);
    assert((-(reach - 1)) * (-(reach - 1)) == (reach - 1) * (reach - 1)) by (nonlinear_arith);
    assert(dx == 0 ==> dx * dx == 0);
    assert(dy == 0 ==> dy * dy == 0);
}

/// Regeneration: when the countdown is no longer than the tick, the tick
/// restores one hit point, counts one bonus and restarts the countdown at the
/// full interval; otherwise hit points and bonuses are untouched and the
/// countdown drops by the length of the tick.
pub proof fn lemma_regeneration(player: Player, dt: u64, controls: Controls)
    ensures
        player.time_since_last_hit <= dt && player.hp < i64::MAX && player.bonuses < u64::MAX ==> {
            &&& player.updated(dt, controls).hp == player.hp + 1
            &&& player.updated(dt, controls).bonuses == player.bonuses + 1
            &&& player.updated(dt, controls).time_since_last_hit == HP_REGEN_INTERVAL
        },
        player.time_since_last_hit > dt ==> {
            &&& player.updated(dt, controls).hp == player.hp
            &&& player.updated(dt, controls).bonuses == player.bonuses
            &&& player.updated(dt, controls).time_since_last_hit == player.time_since_last_hit - dt
        },
        player.updated(dt, controls).hits == player.hits,
        player.survival_time + dt <= u64::MAX ==> player.updated(dt, controls).survival_time
            == player.survival_time + dt,
{
}

} // verus!
