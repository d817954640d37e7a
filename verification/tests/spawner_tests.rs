use color_escape::game::{Game, GameState, Key};
use color_escape::geometry::{Vector2, UNITS_PER_PIXEL};
use color_escape::health_box::HEALTH_BOX_SIZE;
use color_escape::player::{Controls, HP_REGEN_INTERVAL};
use color_escape::spawner::{
    random_ball, random_balls, random_box_position, roll_ball_spawn, BALL_SPAWN_ODDS,
    INITIAL_BALL_COUNT, MAX_BALL_RADIUS, MAX_BALL_SPEED, MIN_BALL_RADIUS,
};

fn px(n: i64) -> i64 {
    n * UNITS_PER_PIXEL
}

#[test]
fn spawn_constants_have_their_values() {
    assert_eq!(INITIAL_BALL_COUNT, 5);
    assert_eq!(MAX_BALL_SPEED * 1_000_000, px(150));
    assert_eq!(MIN_BALL_RADIUS, px(5));
    assert_eq!(MAX_BALL_RADIUS, px(20));
    assert_eq!(BALL_SPAWN_ODDS, 100);
    assert_eq!(HEALTH_BOX_SIZE, px(32));
}

#[test]
fn random_balls_lie_in_the_spawn_ranges() {
    for _ in 0..2000 {
        let b = random_ball();
        assert!(0 <= b.position.x && b.position.x < px(800));
        assert!(0 <= b.position.y && b.position.y < px(600));
        assert!(-MAX_BALL_SPEED <= b.velocity.x && b.velocity.x <= MAX_BALL_SPEED);
        assert!(-MAX_BALL_SPEED <= b.velocity.y && b.velocity.y <= MAX_BALL_SPEED);
        assert!(MIN_BALL_RADIUS <= b.radius && b.radius <= MAX_BALL_RADIUS);
        assert!(b.is_valid());
    }
}

#[test]
fn random_balls_differ_from_one_another() {
    let balls = random_balls(200);
    assert_eq!(balls.len(), 200);
    let first = balls[0];
    assert!(balls.iter().any(|b| b.position.x != first.position.x));
    assert!(balls.iter().any(|b| b.position.y != first.position.y));
    assert!(balls.iter().any(|b| b.velocity.x != first.velocity.x));
    assert!(balls.iter().any(|b| b.velocity.y != first.velocity.y));
    assert!(balls.iter().any(|b| b.radius != first.radius));
    assert!(balls.iter().any(|b| b.color != first.color));
    // Neither end of a range is handed back every time.
    assert!(balls.iter().any(|b| b.position.x != 0 && b.position.x != px(800) - 1));
    assert!(balls.iter().any(|b| b.velocity.x != -MAX_BALL_SPEED && b.velocity.x != MAX_BALL_SPEED));
    assert!(balls.iter().any(|b| b.radius != MIN_BALL_RADIUS && b.radius != MAX_BALL_RADIUS));
    assert!(balls.iter().any(|b| b.velocity.x < 0));
    assert!(balls.iter().any(|b| b.velocity.x > 0));
}

#[test]
fn random_balls_gives_the_requested_count() {
    assert!(random_balls(0).is_empty());
    assert_eq!(random_balls(1).len(), 1);
    assert_eq!(random_balls(INITIAL_BALL_COUNT).len(), 5);
}

#[test]
fn random_box_positions_keep_the_box_inside_the_field() {
    let mut xs = Vec::new();
    for _ in 0..2000 {
        let p = random_box_position();
        assert!(0 <= p.x && p.x < px(800) - HEALTH_BOX_SIZE);
        assert!(0 <= p.y && p.y < px(600) - HEALTH_BOX_SIZE);
        xs.push(p.x);
    }
    assert!(xs.iter().any(|x| *x != xs[0]));
}

#[test]
fn ball_spawn_roll_is_rare_but_happens() {
    let mut hits = 0;
    let rolls = 200_000;
    for _ in 0..rolls {
        if roll_ball_spawn() {
            hits += 1;
        }
    }
    // One in a hundred: 2000 expected, with a standard deviation near 45.
    assert!(hits > 1500, "only {} hits", hits);
    assert!(hits < 2500, "as many as {} hits", hits);
}

#[test]
fn spawn_ball_appends_one_ball() {
    let mut game = Game::with_balls(0, Vec::new());
    game.spawn_ball();
    game.spawn_ball();
    assert_eq!(game.balls.len(), 2);
    assert!(game.balls.iter().all(|b| b.radius >= MIN_BALL_RADIUS));
    assert_eq!(game.state, GameState::Menu);
}

#[test]
fn random_tick_spawns_boxes_on_schedule_and_balls_now_and_then() {
    let mut game = Game::with_balls(0, Vec::new());
    assert!(game.press_key(Key::Space));
    // Park the player; keep it alive whatever the balls do.
    let mut ball_count_grew = false;
    let mut boxes_seen = 0;
    for _ in 0..6000 {
        game.player.hp = 1_000_000;
        let before = game.balls.len();
        let boxes_before = game.health_boxes.len();
        let due = game.is_health_box_due(16_667);
        let cues = game.tick(16_667, Controls::none());
        assert!(!cues.game_over);
        assert_eq!(game.state, GameState::Playing);
        assert!(game.balls.len() <= before + 1);
        if game.balls.len() == before + 1 {
            ball_count_grew = true;
        }
        if due {
            boxes_seen += 1;
            assert_eq!(game.health_box_clock, 0);
            assert!(game.health_boxes.len() + 1 >= boxes_before);
        } else {
            assert!(game.health_boxes.len() <= boxes_before);
        }
        for b in &game.health_boxes {
            assert!(0 <= b.position.x && b.position.x < px(800) - HEALTH_BOX_SIZE);
            assert!(0 <= b.position.y && b.position.y < px(600) - HEALTH_BOX_SIZE);
        }
        assert!(game.player.time_since_last_hit <= HP_REGEN_INTERVAL);
    }
    // 6000 ticks of 16.667 ms are 100 seconds: five boxes, about sixty balls.
    assert_eq!(boxes_seen, 5);
    assert!(ball_count_grew);
    assert_eq!(game.player.position, Vector2 { x: px(400), y: px(300) });
}
