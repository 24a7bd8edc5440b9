use pong::consts::{BALL_SPEED, MAX_STEP_MS, PADDLE_SPEED};
use pong::geometry::overlap;
use pong::physics::{bounce, integrate, paddle_velocity, respond};
use pong::registry::Registry;
use pong::types::{Body, Collider, Colliding, Edge, Intents, Moving, Player, PongEvent, Vec2};

fn body(x: i64, y: i64, half_x: i64, half_y: i64, kind: Collider, vx: i64, vy: i64) -> Body {
    Body {
        id: 0,
        position: Vec2 { x, y },
        moving: Moving { velocity: Vec2 { x: vx, y: vy } },
        colliding: Colliding { kind, half_extents: Vec2 { x: half_x, y: half_y } },
    }
}

fn add(r: &mut Registry, x: i64, y: i64, half_x: i64, half_y: i64, kind: Collider, vx: i64, vy: i64) -> usize {
    r.insert(
        Vec2 { x, y },
        Moving { velocity: Vec2 { x: vx, y: vy } },
        Colliding { kind, half_extents: Vec2 { x: half_x, y: half_y } },
    )
}

#[test]
fn ball_reaching_right_goal_scores_for_left() {
    let mut r = Registry::new();
    let ball = add(&mut r, 9_900_000, 0, 100_000, 100_000, Collider::Ball, 2_000, 0);
    add(&mut r, 10_000_000, 0, 100_000, 4_900_000, Collider::Goal(Player::Right), 0, 0);
    r.move_system(16);
    let b = r.get(ball).unwrap();
    assert_eq!(b.position, Vec2 { x: 9_932_000, y: 0 });
    let events = r.ball_collide_system();
    assert_eq!(events, vec![PongEvent::Goal(Player::Left)]);
    assert_eq!(r.get(ball).unwrap().moving.velocity, Vec2 { x: 2_000, y: 0 });
}

#[test]
fn ball_against_top_wall_turns_down() {
    let mut r = Registry::new();
    let ball = add(&mut r, 0, 4_850_000, 100_000, 100_000, Collider::Ball, 0, 3_000);
    add(&mut r, 0, 5_000_000, 10_000_000, 100_000, Collider::Wall, 0, 0);
    r.move_system(16);
    let events = r.ball_collide_system();
    assert!(events.is_empty());
    let b = r.get(ball).unwrap();
    assert_eq!(b.moving.velocity, Vec2 { x: 0, y: -3_000 });
    assert_eq!(b.position.x, 0);
    assert_eq!(b.position.y, 4_898_000);
}

#[test]
fn overlap_is_symmetric_on_examples() {
    let cases = [
        (body(0, 0, 10, 10, Collider::Ball, 0, 0), body(15, 3, 10, 10, Collider::Wall, 0, 0)),
        (body(0, 0, 10, 10, Collider::Ball, 0, 0), body(20, 0, 10, 10, Collider::Wall, 0, 0)),
        (body(-5, 7, 1, 50, Collider::Ball, 0, 0), body(0, 0, 100, 2, Collider::Wall, 0, 0)),
        (body(0, 0, 1, 1, Collider::Ball, 0, 0), body(0, 0, 100, 100, Collider::Wall, 0, 0)),
        (body(i64::MAX, i64::MIN, 5, 5, Collider::Ball, 0, 0), body(i64::MIN, i64::MAX, 5, 5, Collider::Wall, 0, 0)),
    ];
    for (a, b) in cases.iter() {
        assert_eq!(overlap(a, b).is_some(), overlap(b, a).is_some());
    }
    assert!(overlap(&cases[0].0, &cases[0].1).is_some());
    assert!(overlap(&cases[1].0, &cases[1].1).is_none());
}

#[test]
fn overlap_classifies_edges() {
    let wall = body(0, 0, 100, 100, Collider::Wall, 0, 0);
    // Shallow on x, from the left.
    assert_eq!(overlap(&body(-105, 0, 10, 10, Collider::Ball, 0, 0), &wall), Some(Edge::Left));
    // Shallow on x, from the right.
    assert_eq!(overlap(&body(105, 20, 10, 10, Collider::Ball, 0, 0), &wall), Some(Edge::Right));
    // Shallow on y, from above.
    assert_eq!(overlap(&body(30, 105, 10, 10, Collider::Ball, 0, 0), &wall), Some(Edge::Top));
    // Shallow on y, from below.
    assert_eq!(overlap(&body(30, -105, 10, 10, Collider::Ball, 0, 0), &wall), Some(Edge::Bottom));
}

#[test]
fn overlap_tie_prefers_vertical_edge() {
    let wall = body(0, 0, 100, 100, Collider::Wall, 0, 0);
    // Equal depth of 5 on both axes.
    assert_eq!(overlap(&body(105, 105, 10, 10, Collider::Ball, 0, 0), &wall), Some(Edge::Top));
    assert_eq!(overlap(&body(-105, -105, 10, 10, Collider::Ball, 0, 0), &wall), Some(Edge::Bottom));
}

#[test]
fn touching_boxes_do_not_overlap() {
    let wall = body(0, 0, 100, 100, Collider::Wall, 0, 0);
    assert_eq!(overlap(&body(110, 0, 10, 10, Collider::Ball, 0, 0), &wall), None);
    assert_eq!(overlap(&body(0, -110, 10, 10, Collider::Ball, 0, 0), &wall), None);
    assert_eq!(overlap(&body(109, 0, 10, 10, Collider::Ball, 0, 0), &wall), Some(Edge::Right));
}

fn speed_sq(v: Vec2) -> i128 {
    (v.x as i128) * (v.x as i128) + (v.y as i128) * (v.y as i128)
}

#[test]
fn bounce_keeps_speed_and_points_away() {
    let start = Vec2 { x: 3, y: -4 };
    let expected = [
        (Edge::Top, Vec2 { x: 3, y: 4 }),
        (Edge::Bottom, Vec2 { x: 3, y: -4 }),
        (Edge::Left, Vec2 { x: -3, y: -4 }),
        (Edge::Right, Vec2 { x: 3, y: -4 }),
    ];
    for (edge, after) in expected.iter() {
        let mut m = Moving { velocity: start };
        bounce(&mut m, *edge);
        assert_eq!(m.velocity, *after);
        assert_eq!(speed_sq(m.velocity), speed_sq(start));
    }
}

#[test]
fn goal_contact_raises_one_point_without_bounce() {
    let ball = body(0, 0, 10, 10, Collider::Ball, 0, 0);
    let goal = body(15, 0, 10, 100, Collider::Goal(Player::Left), 0, 0);
    let mut m = Moving { velocity: Vec2 { x: 7, y: -2 } };
    assert_eq!(respond(&mut m, &ball, &goal), Some(Player::Right));
    assert_eq!(m.velocity, Vec2 { x: 7, y: -2 });
    let paddle = body(15, 0, 10, 100, Collider::Paddle(Player::Right), 0, 0);
    assert_eq!(respond(&mut m, &ball, &paddle), None);
    assert_eq!(m.velocity, Vec2 { x: -7, y: -2 });
}

#[test]
fn integrate_caps_the_step_and_skips_static_bodies() {
    let mut ball = body(0, 0, 10, 10, Collider::Ball, 5, -2);
    integrate(&mut ball, 10);
    assert_eq!(ball.position, Vec2 { x: 50, y: -20 });
    integrate(&mut ball, 1_000);
    let step = MAX_STEP_MS as i64;
    assert_eq!(ball.position, Vec2 { x: 50 + 5 * step, y: -20 - 2 * step });
    let mut wall = body(1, 2, 10, 10, Collider::Wall, 5, 5);
    integrate(&mut wall, 10);
    assert_eq!(wall.position, Vec2 { x: 1, y: 2 });
}

#[test]
fn paddle_velocity_follows_intents() {
    let mut i = Intents::none();
    assert_eq!(paddle_velocity(Player::Left, &i), Vec2 { x: 0, y: 0 });
    i.left_up = true;
    assert_eq!(paddle_velocity(Player::Left, &i), Vec2 { x: 0, y: PADDLE_SPEED });
    assert_eq!(paddle_velocity(Player::Right, &i), Vec2 { x: 0, y: 0 });
    i.left_down = true;
    assert_eq!(paddle_velocity(Player::Left, &i), Vec2 { x: 0, y: 0 });
    i.right_down = true;
    assert_eq!(paddle_velocity(Player::Right, &i), Vec2 { x: 0, y: -PADDLE_SPEED });
}

#[test]
fn later_overlaps_see_earlier_bounces() {
    // The ball touches a wall above and a paddle on its right; both respond
    // in registry order.
    let mut r = Registry::new();
    let ball = add(&mut r, 0, 0, 10, 10, Collider::Ball, 4, 6);
    add(&mut r, 0, 105, 1_000, 100, Collider::Wall, 0, 0);
    add(&mut r, 105, 0, 100, 1_000, Collider::Paddle(Player::Right), 0, 0);
    let events = r.ball_collide_system();
    assert!(events.is_empty());
    assert_eq!(r.get(ball).unwrap().moving.velocity, Vec2 { x: -4, y: -6 });
}

#[test]
fn paddle_input_only_moves_paddles_vertically() {
    let mut r = Registry::new();
    let left = add(&mut r, -9, 0, 1, 5, Collider::Paddle(Player::Left), 0, 0);
    let right = add(&mut r, 9, 0, 1, 5, Collider::Paddle(Player::Right), 0, 0);
    let ball = add(&mut r, 0, 0, 1, 1, Collider::Ball, BALL_SPEED, BALL_SPEED);
    let mut i = Intents::none();
    i.left_down = true;
    i.right_up = true;
    r.paddle_input(&i);
    assert_eq!(r.get(left).unwrap().moving.velocity, Vec2 { x: 0, y: -PADDLE_SPEED });
    assert_eq!(r.get(right).unwrap().moving.velocity, Vec2 { x: 0, y: PADDLE_SPEED });
    assert_eq!(r.get(ball).unwrap().moving.velocity, Vec2 { x: BALL_SPEED, y: BALL_SPEED });
}

#[test]
fn each_goal_touched_raises_its_own_event() {
    // Outside the standard arena a ball can touch two goals at once: the
    // resolver raises one event per goal, in registry order.
    let mut r = Registry::new();
    add(&mut r, -15, 0, 10, 100, Collider::Goal(Player::Left), 0, 0);
    let ball = add(&mut r, 0, 0, 10, 10, Collider::Ball, 3, 1);
    add(&mut r, 15, 0, 10, 100, Collider::Goal(Player::Right), 0, 0);
    let events = r.ball_collide_system();
    assert_eq!(events, vec![PongEvent::Goal(Player::Right), PongEvent::Goal(Player::Left)]);
    assert_eq!(r.get(ball).unwrap().moving.velocity, Vec2 { x: 3, y: 1 });
}

#[test]
fn goal_and_wall_together_bounce_once_and_score_once() {
    let mut r = Registry::new();
    let ball = add(&mut r, 0, 0, 10, 10, Collider::Ball, 3, 5);
    add(&mut r, 15, 0, 10, 100, Collider::Goal(Player::Right), 0, 0);
    add(&mut r, 0, 15, 100, 10, Collider::Wall, 0, 0);
    let events = r.ball_collide_system();
    assert_eq!(events, vec![PongEvent::Goal(Player::Left)]);
    let v = r.get(ball).unwrap().moving.velocity;
    assert_eq!(v, Vec2 { x: 3, y: -5 });
    assert_eq!(speed_sq(v), speed_sq(Vec2 { x: 3, y: 5 }));
}
