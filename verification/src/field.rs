//! The entities on the field during a tick: moving every ball, and removing
//! the balls and health boxes that the player touches.

use vstd::prelude::*;
use crate::ball::Ball;
use crate::health_box::HealthBox;
use crate::player::Player;

verus! {

/// Every ball of `balls` is storable.
pub open spec fn all_balls_wf(balls: Seq<Ball>) -> bool {
    forall|i: int| 0 <= i < balls.len() ==> (#[trigger] balls[i]).wf()
}

/// Every box of `boxes` is storable.
pub open spec fn all_boxes_wf(boxes: Seq<HealthBox>) -> bool {
    forall|i: int| 0 <= i < boxes.len() ==> (#[trigger] boxes[i]).wf()
}

/// The balls after `dt` microseconds, each moved on its own.
pub open spec fn moved_balls(balls: Seq<Ball>, dt: u64) -> Seq<Ball> {
    balls.map_values(|ball: Ball| ball.updated(dt))
}

/// The balls that touch the player, in field order.
pub open spec fn balls_hitting(player: Player, balls: Seq<Ball>) -> Seq<Ball> {
    balls.filter(|ball: Ball| player.collides_with_ball(ball))
}

/// The balls that do not touch the player, in field order.
pub open spec fn balls_missing(player: Player, balls: Seq<Ball>) -> Seq<Ball> {
    balls.filter(|ball: Ball| !player.collides_with_ball(ball))
}

/// The health boxes that the player reaches, in field order.
pub open spec fn boxes_reached(player: Player, boxes: Seq<HealthBox>) -> Seq<HealthBox> {
    boxes.filter(|health_box: HealthBox| player.collides_with_health_box(health_box))
}

/// The health boxes that the player does not reach, in field order.
pub open spec fn boxes_left(player: Player, boxes: Seq<HealthBox>) -> Seq<HealthBox> {
    boxes.filter(|health_box: HealthBox| !player.collides_with_health_box(health_box))
}

/// Taking one more ball into account extends the two ball selections by that
/// ball, each on its side of the test.
proof fn lemma_ball_selection_step(player: Player, balls: Seq<Ball>, i: int)
    requires
        0 <= i < balls.len(),
    ensures
        balls_hitting(player, balls.take(i + 1)) == if player.collides_with_ball(balls[i]) {
            balls_hitting(player, balls.take(i)).push(balls[i])
        } else {
            balls_hitting(player, balls.take(i))
        },
        balls_missing(player, balls.take(i + 1)) == if player.collides_with_ball(balls[i]) {
            balls_missing(player, balls.take(i))
        } else {
            balls_missing(player, balls.take(i)).push(balls[i])
        },
{
    assert(balls.take(i + 1) =~= balls.take(i).push(balls[i]));
    balls.take(i).lemma_filter_push(balls[i], |ball: Ball| player.collides_with_ball(ball));
    balls.take(i).lemma_filter_push(balls[i], |ball: Ball| !player.collides_with_ball(ball));
}

/// Taking one more box into account extends the two box selections by that
/// box, each on its side of the test.
proof fn lemma_box_selection_step(player: Player, boxes: Seq<HealthBox>, i: int)
    requires
        0 <= i < boxes.len(),
    ensures
        boxes_reached(player, boxes.take(i + 1)) == if player.collides_with_health_box(boxes[i]) {
            boxes_reached(player, boxes.take(i)).push(boxes[i])
        } else {
            boxes_reached(player, boxes.take(i))
        },
        boxes_left(player, boxes.take(i + 1)) == if player.collides_with_health_box(boxes[i]) {
            boxes_left(player, boxes.take(i))
        } else {
            boxes_left(player, boxes.take(i)).push(boxes[i])
        },
{
    assert(boxes.take(i + 1) =~= boxes.take(i).push(boxes[i]));
    boxes.take(i).lemma_filter_push(
        boxes[i],
        |health_box: HealthBox| player.collides_with_health_box(health_box),
    );
    boxes.take(i).lemma_filter_push(
        boxes[i],
        |health_box: HealthBox| !player.collides_with_health_box(health_box),
    );
}

/// Every ball either touches the player or does not: the two selections
/// together hold as many balls as the field.
pub proof fn lemma_balls_are_split(player: Player, balls: Seq<Ball>)
    ensures
        balls_hitting(player, balls).len() + balls_missing(player, balls).len() == balls.len(),
    decreases balls.len(),
{
    reveal(Seq::filter);
    if balls.len() > 0 {
        lemma_balls_are_split(player, balls.drop_last());
    }
}

/// Every box is either reached by the player or left: the two selections
/// together hold as many boxes as the field.
pub proof fn lemma_boxes_are_split(player: Player, boxes: Seq<HealthBox>)
    ensures
        boxes_reached(player, boxes).len() + boxes_left(player, boxes).len() == boxes.len(),
    decreases boxes.len(),
{
    reveal(Seq::filter);
    if boxes.len() > 0 {
        lemma_boxes_are_split(player, boxes.drop_last());
    }
}

/// A selection of storable balls is storable.
proof fn lemma_selection_keeps_wf(player: Player, balls: Seq<Ball>)
    requires
        all_balls_wf(balls),
    ensures
        all_balls_wf(balls_missing(player, balls)),
    decreases balls.len(),
{
    reveal(Seq::filter);
    if balls.len() > 0 {
        lemma_selection_keeps_wf(player, balls.drop_last());
    }
}

/// A selection of storable boxes is storable.
proof fn lemma_box_selection_keeps_wf(player: Player, boxes: Seq<HealthBox>)
    requires
        all_boxes_wf(boxes),
    ensures
        all_boxes_wf(boxes_left(player, boxes)),
    decreases boxes.len(),
{
    reveal(Seq::filter);
    if boxes.len() > 0 {
        lemma_box_selection_keeps_wf(player, boxes.drop_last());
    }
}

/// Advances every ball by `dt` microseconds.
pub fn update_balls(balls: &mut Vec<Ball>, dt: u64)
    requires
        all_balls_wf(old(balls)@),
    ensures
        final(balls)@ == moved_balls(old(balls)@, dt),
        all_balls_wf(final(balls)@),
{
    let count = balls.len();
    let mut i: usize = 0;
    while i < count
        invariant
            i <= count,
            balls@.len() == count,
            old(balls)@.len() == count,
            all_balls_wf(old(balls)@),
            forall|j: int| 0 <= j < i ==> balls@[j] == (#[trigger] old(balls)@[j]).updated(dt),
            forall|j: int| i <= j < count ==> balls@[j] == old(balls)@[j],
        decreases count - i,
    {
        let mut ball = balls[i];
        ball.update(dt);
        balls.set(i, ball);
        i += 1;
    }
    proof {
        assert(balls@ =~= moved_balls(old(balls)@, dt));
        assert forall|j: int| 0 <= j < balls@.len() implies (#[trigger] balls@[j]).wf() by {
            crate::ball::lemma_bounce_flips_sign_only(old(balls)@[j], dt);
        }
    }
}

/// Tests every ball against the player, one after the other, and removes the
/// balls that touch it. Tells whether any did.
pub fn collect_ball_hits(player: &mut Player, balls: &mut Vec<Ball>) -> (hit: bool)
    requires
        old(player).wf(),
        all_balls_wf(old(balls)@),
    ensures
        final(balls)@ == balls_missing(*old(player), old(balls)@),
        *final(player) == old(player).after_hits(
            balls_hitting(*old(player), old(balls)@).len(),
        ),
        hit == (balls_hitting(*old(player), old(balls)@).len() > 0),
        final(player).wf(),
        all_balls_wf(final(balls)@),
{
    let ghost start = *player;
    let mut kept: Vec<Ball> = Vec::new();
    let mut hit = false;
    let count = balls.len();
    let mut i: usize = 0;
    proof {
        reveal(Seq::filter);
        assert(balls@.take(0) =~= Seq::<Ball>::empty());
    }
    while i < count
        invariant
            i <= count,
            balls@.len() == count,
            balls@ == old(balls)@,
            all_balls_wf(balls@),
            start == *old(player),
            start.wf(),
            player.wf(),
            kept@ == balls_missing(start, balls@.take(i as int)),
            *player == start.after_hits(balls_hitting(start, balls@.take(i as int)).len()),
            hit == (balls_hitting(start, balls@.take(i as int)).len() > 0),
        decreases count - i,
    {
        let ball = balls[i];
        proof {
            lemma_ball_selection_step(start, balls@, i as int);
        }
        if player.check_collision_with_ball(&ball) {
            hit = true;
        } else {
            kept.push(ball);
        }
        i += 1;
    }
    proof {
        assert(balls@.take(count as int) =~= balls@);
        lemma_selection_keeps_wf(start, balls@);
    }
    *balls = kept;
    hit
}

/// Tests every health box against the player, one after the other, and
/// removes the boxes that it reaches. Tells whether there was any.
pub fn collect_health_boxes(player: &mut Player, boxes: &mut Vec<HealthBox>) -> (picked: bool)
    requires
        old(player).wf(),
        all_boxes_wf(old(boxes)@),
    ensures
        final(boxes)@ == boxes_left(*old(player), old(boxes)@),
        *final(player) == old(player).after_heals(
            boxes_reached(*old(player), old(boxes)@).len(),
        ),
        picked == (boxes_reached(*old(player), old(boxes)@).len() > 0),
        final(player).wf(),
        all_boxes_wf(final(boxes)@),
{
    let ghost start = *player;
    let mut kept: Vec<HealthBox> = Vec::new();
    let mut picked = false;
    let count = boxes.len();
    let mut i: usize = 0;
    proof {
        reveal(Seq::filter);
        assert(boxes@.take(0) =~= Seq::<HealthBox>::empty());
    }
    while i < count
        invariant
            i <= count,
            boxes@.len() == count,
            boxes@ == old(boxes)@,
            all_boxes_wf(boxes@),
            start == *old(player),
            start.wf(),
            player.wf(),
            kept@ == boxes_left(start, boxes@.take(i as int)),
            *player == start.after_heals(boxes_reached(start, boxes@.take(i as int)).len()),
            picked == (boxes_reached(start, boxes@.take(i as int)).len() > 0),
        decreases count - i,
    {
        let health_box = boxes[i];
        proof {
            lemma_box_selection_step(start, boxes@, i as int);
        }
        if player.check_collision_with_health_box(&health_box) {
            picked = true;
        } else {
            kept.push(health_box);
        }
        i += 1;
    }
    proof {
        assert(boxes@.take(count as int) =~= boxes@);
        lemma_box_selection_keeps_wf(start, boxes@);
    }
    *boxes = kept;
    picked
}

} // verus!
