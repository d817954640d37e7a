use color_escape::ball::Ball;
use color_escape::color::Color;
use color_escape::geometry::{Vector2, COORD_LIMIT, UNITS_PER_PIXEL, WINDOW_SIZE_X, WINDOW_SIZE_Y};

const SECOND: u64 = 1_000_000;

fn px(n: i64) -> i64 {
    n * UNITS_PER_PIXEL
}

fn per_second(pixels: i64) -> i64 {
    pixels * 1_000
}

fn ball(x: i64, y: i64, vx: i64, vy: i64, radius: i64) -> Ball {
    Ball::new(
        Vector2::new(x, y),
        Vector2::new(vx, vy),
        radius,
        Color::rgb(10, 20, 30),
    )
}

#[test]
fn ball_new_keeps_its_arguments() {
    let b = ball(px(1), px(2), 3, -4, px(5));
    assert_eq!(b.position, Vector2 { x: px(1), y: px(2) });
    assert_eq!(b.velocity, Vector2 { x: 3, y: -4 });
    assert_eq!(b.radius, px(5));
    assert_eq!(b.color, Color { r: 10, g: 20, b: 30 });
    assert!(b.is_valid());
}

#[test]
fn ball_moves_by_velocity_times_time() {
    let mut b = ball(px(100), px(200), per_second(50), per_second(-20), px(10));
    b.update(SECOND / 2);
    assert_eq!(b.position, Vector2 { x: px(125), y: px(190) });
    assert_eq!(b.velocity, Vector2 { x: per_second(50), y: per_second(-20) });
}

#[test]
fn ball_with_zero_time_stays_put() {
    let mut b = ball(px(100), px(200), per_second(50), per_second(-20), px(10));
    let before = b;
    b.update(0);
    assert_eq!(b, before);
}

#[test]
fn ball_flips_x_at_right_wall_without_moving_back() {
    let mut b = ball(px(700), px(100), per_second(100), 0, px(10));
    b.update(SECOND);
    assert_eq!(b.position, Vector2 { x: px(800), y: px(100) });
    assert_eq!(b.velocity, Vector2 { x: per_second(-100), y: 0 });
}

#[test]
fn ball_flips_x_at_left_wall() {
    let mut b = ball(px(5), px(100), per_second(-10), per_second(3), px(10));
    b.update(SECOND);
    assert_eq!(b.position, Vector2 { x: px(-5), y: px(103) });
    assert_eq!(b.velocity, Vector2 { x: per_second(10), y: per_second(3) });
}

#[test]
fn ball_flips_y_at_bottom_and_top_walls() {
    let mut down = ball(px(100), px(570), 0, per_second(20), px(10));
    down.update(SECOND);
    assert_eq!(down.position.y, px(590));
    assert_eq!(down.velocity.y, per_second(-20));

    let mut up = ball(px(100), px(5), 0, per_second(-20), px(10));
    up.update(SECOND);
    assert_eq!(up.position.y, px(-15));
    assert_eq!(up.velocity.y, per_second(20));
}

#[test]
fn ball_flips_both_axes_independently() {
    let mut b = ball(px(779), px(579), per_second(2), per_second(2), px(10));
    b.update(SECOND);
    assert_eq!(b.position, Vector2 { x: px(781), y: px(581) });
    assert_eq!(b.velocity, Vector2 { x: per_second(-2), y: per_second(-2) });
}

#[test]
fn ball_exactly_on_the_edge_does_not_flip() {
    let mut right = ball(px(770), px(570), per_second(10), per_second(10), px(10));
    right.update(SECOND);
    assert_eq!(right.position, Vector2 { x: px(780), y: px(580) });
    assert_eq!(right.velocity, Vector2 { x: per_second(10), y: per_second(10) });

    let mut left = ball(px(10), px(10), per_second(-10), per_second(-10), px(10));
    left.update(SECOND);
    assert_eq!(left.position, Vector2 { x: 0, y: 0 });
    assert_eq!(left.velocity, Vector2 { x: per_second(-10), y: per_second(-10) });
}

#[test]
fn ball_one_unit_past_the_edge_flips() {
    let mut b = ball(px(780), 1, 1, -2, px(10));
    b.update(1);
    assert_eq!(b.position, Vector2 { x: px(780) + 1, y: -1 });
    assert_eq!(b.velocity, Vector2 { x: -1, y: 2 });
}

#[test]
fn ball_outside_keeps_flipping_each_tick() {
    let mut b = ball(px(900), px(100), per_second(1), 0, px(10));
    b.update(SECOND);
    assert_eq!(b.velocity.x, per_second(-1));
    assert_eq!(b.position.x, px(901));
    b.update(SECOND);
    assert_eq!(b.velocity.x, per_second(1));
    assert_eq!(b.position.x, px(900));
}

#[test]
fn ball_speed_magnitude_survives_reflection() {
    let mut b = ball(px(400), px(300), per_second(150), per_second(-150), px(20));
    for _ in 0..1000 {
        b.update(16_667);
        assert_eq!(b.velocity.x.abs(), per_second(150));
        assert_eq!(b.velocity.y.abs(), per_second(150));
        assert_eq!(b.radius, px(20));
    }
}

#[test]
fn ball_larger_than_the_field_always_flips() {
    let mut b = ball(0, 0, 5, 7, WINDOW_SIZE_X);
    b.update(0);
    assert_eq!(b.velocity, Vector2 { x: -5, y: -7 });
    assert_eq!(b.position, Vector2 { x: 0, y: 0 });
}

#[test]
fn ball_position_stops_at_the_coordinate_limit() {
    let mut b = ball(COORD_LIMIT - 5, -COORD_LIMIT + 5, 10, -10, px(10));
    b.update(u64::MAX);
    assert_eq!(b.position, Vector2 { x: COORD_LIMIT, y: -COORD_LIMIT });
    assert_eq!(b.velocity, Vector2 { x: -10, y: 10 });
    assert!(b.is_valid());
}

#[test]
fn ball_validity_checks_every_number() {
    assert!(ball(COORD_LIMIT, -COORD_LIMIT, COORD_LIMIT, -COORD_LIMIT, COORD_LIMIT).is_valid());
    assert!(!ball(COORD_LIMIT + 1, 0, 0, 0, 0).is_valid());
    assert!(!ball(0, -COORD_LIMIT - 1, 0, 0, 0).is_valid());
    assert!(!ball(0, 0, COORD_LIMIT + 1, 0, 0).is_valid());
    assert!(!ball(0, 0, 0, -COORD_LIMIT - 1, 0).is_valid());
    assert!(!ball(0, 0, 0, 0, -1).is_valid());
    assert!(!ball(0, 0, 0, 0, COORD_LIMIT + 1).is_valid());
}

#[test]
fn ball_center_is_corner_plus_radius() {
    let b = ball(px(100), px(200), 0, 0, px(7));
    assert_eq!(b.get_center(), Vector2 { x: px(107), y: px(207) });
}

#[test]
fn field_is_800_by_600_pixels() {
    assert_eq!(WINDOW_SIZE_X, px(800));
    assert_eq!(WINDOW_SIZE_Y, px(600));
}
