use vstd::prelude::*;
use crate::consts::{MAX_STEP_MS, PADDLE_SPEED, SPEED_LIMIT};
use crate::geometry::{abs, overlap, overlap_spec};
use crate::types::{Body, Collider, Edge, Intents, Moving, Player, Vec2};

verus! {

/// A velocity whose components stay within the speed limit.
pub open spec fn velocity_ok(v: Vec2) -> bool {
    -SPEED_LIMIT <= v.x <= SPEED_LIMIT && -SPEED_LIMIT <= v.y <= SPEED_LIMIT
}

/// Squared length of a vector.
pub open spec fn norm_sq(v: Vec2) -> int {
    v.x * v.x + v.y * v.y
}

/// The velocity after striking edge `e`: the component across that edge is
/// turned to point away from it; the other component is kept.
pub open spec fn bounce_spec(v: Vec2, e: Edge) -> Vec2 {
    match e {
        Edge::Top => Vec2 { x: v.x, y: abs(v.y as int) as i64 },
        Edge::Bottom => Vec2 { x: v.x, y: -abs(v.y as int) as i64 },
        Edge::Left => Vec2 { x: -abs(v.x as int) as i64, y: v.y },
        Edge::Right => Vec2 { x: abs(v.x as int) as i64, y: v.y },
    }
}

/// Applies the bounce off edge `collision` to a velocity.
pub fn bounce(moving: &mut Moving, collision: Edge)
    requires
        velocity_ok(old(moving).velocity),
    ensures
        final(moving).velocity == bounce_spec(old(moving).velocity, collision),
{
    let v = moving.velocity;
    match collision {
        Edge::Top => {
            moving.velocity.y = if v.y < 0 { -v.y } else { v.y };
        },
        Edge::Bottom => {
            moving.velocity.y = if v.y < 0 { v.y } else { -v.y };
        },
        Edge::Left => {
            moving.velocity.x = if v.x < 0 { v.x } else { -v.x };
        },
        Edge::Right => {
            moving.velocity.x = if v.x < 0 { -v.x } else { v.x };
        },
    }
}

/// A bounce keeps the speed: each component keeps its magnitude, so the
/// length of the velocity is unchanged.
pub proof fn lemma_bounce_preserves_speed(v: Vec2, e: Edge)
    requires
        velocity_ok(v),
    ensures
        abs(bounce_spec(v, e).x as int) == abs(v.x as int),
        abs(bounce_spec(v, e).y as int) == abs(v.y as int),
        norm_sq(bounce_spec(v, e)) == norm_sq(v),
        velocity_ok(bounce_spec(v, e)),
{
    let w = bounce_spec(v, e);
    assert(w.x * w.x == v.x * v.x) by (nonlinear_arith)
        requires
            w.x == v.x || w.x == -v.x,
    ;
    assert(w.y * w.y == v.y * v.y) by (nonlinear_arith)
        requires
            w.y == v.y || w.y == -v.y,
    ;
}

/// Bodies that the integrator moves: the ball and the paddles.
pub open spec fn is_moving(kind: Collider) -> bool {
    match kind {
        Collider::Ball | Collider::Paddle(_) => true,
        _ => false,
    }
}

/// The time step actually applied: `dt` capped at `MAX_STEP_MS`.
pub open spec fn clamp_step(dt: u64) -> u64 {
    if dt > MAX_STEP_MS {
        MAX_STEP_MS
    } else {
        dt
    }
}

/// Where coordinate `p` moves in `dt` milliseconds at speed `v`.
pub open spec fn advance_coord(p: i64, v: i64, dt: u64) -> int {
    p + v * clamp_step(dt)
}

/// The new position fits the integer type.
pub open spec fn step_fits(b: Body, dt: u64) -> bool {
    is_moving(b.colliding.kind) ==> {
        &&& i64::MIN <= advance_coord(b.position.x, b.moving.velocity.x, dt) <= i64::MAX
        &&& i64::MIN <= advance_coord(b.position.y, b.moving.velocity.y, dt) <= i64::MAX
    }
}

/// The body after `dt` milliseconds of motion; static bodies stay put.
pub open spec fn integrate_spec(b: Body, dt: u64) -> Body {
    if is_moving(b.colliding.kind) {
        Body {
            position: Vec2 {
                x: advance_coord(b.position.x, b.moving.velocity.x, dt) as i64,
                y: advance_coord(b.position.y, b.moving.velocity.y, dt) as i64,
            },
            ..b
        }
    } else {
        b
    }
}

pub(crate) proof fn lemma_product_bounded(v: i64, s: u64)
    requires
        -SPEED_LIMIT <= v <= SPEED_LIMIT,
        s <= MAX_STEP_MS,
    ensures
        -SPEED_LIMIT * MAX_STEP_MS <= v * s <= SPEED_LIMIT * MAX_STEP_MS,
{
    assert(-SPEED_LIMIT * MAX_STEP_MS <= v * s <= SPEED_LIMIT * MAX_STEP_MS) by (nonlinear_arith)
        requires
            -SPEED_LIMIT <= v <= SPEED_LIMIT,
            0 <= s <= MAX_STEP_MS,
            SPEED_LIMIT > 0,
    ;
}

/// Advances a body by `dt` milliseconds, capped at `MAX_STEP_MS`.
pub fn integrate(body: &mut Body, dt: u64)
    requires
        velocity_ok(old(body).moving.velocity),
        step_fits(*old(body), dt),
    ensures
        *final(body) == integrate_spec(*old(body), dt),
{
    let moves = match body.colliding.kind {
        Collider::Ball | Collider::Paddle(_) => true,
        _ => false,
    };
    if moves {
        let step: u64 = if dt > MAX_STEP_MS { MAX_STEP_MS } else { dt };
        proof {
            lemma_product_bounded(body.moving.velocity.x, step);
            lemma_product_bounded(body.moving.velocity.y, step);
        }
        let s = step as i64;
        body.position.x = body.position.x + body.moving.velocity.x * s;
        body.position.y = body.position.y + body.moving.velocity.y * s;
    }
}

/// Vertical speed that a player's held directions give their paddle.
pub open spec fn paddle_speed_spec(up: bool, down: bool) -> i64 {
    if up && !down {
        PADDLE_SPEED
    } else if down && !up {
        (-PADDLE_SPEED) as i64
    } else {
        0
    }
}

/// The velocity of the paddle on side `side` under `intents`.
pub open spec fn paddle_velocity_spec(side: Player, intents: Intents) -> Vec2 {
    match side {
        Player::Left => Vec2 { x: 0, y: paddle_speed_spec(intents.left_up, intents.left_down) },
        Player::Right => Vec2 { x: 0, y: paddle_speed_spec(intents.right_up, intents.right_down) },
    }
}

/// Maps the held directions to the velocity of one paddle: up, down, or
/// still when neither or both are held.
pub fn paddle_velocity(side: Player, intents: &Intents) -> (r: Vec2)
    ensures
        r == paddle_velocity_spec(side, *intents),
        velocity_ok(r),
{
    let (up, down) = match side {
        Player::Left => (intents.left_up, intents.left_down),
        Player::Right => (intents.right_up, intents.right_down),
    };
    let mut y: i64 = 0;
    if up {
        y = y + PADDLE_SPEED;
    }
    if down {
        y = y - PADDLE_SPEED;
    }
    Vec2 { x: 0, y }
}

/// How a ball moving at `v` responds to `other`: no contact leaves it alone;
/// a goal raises a point for the player opposite the goal's side and leaves
/// the velocity as it is; anything else bounces it.
pub open spec fn respond_spec(v: Vec2, ball: Body, other: Body) -> (Vec2, Option<Player>) {
    match overlap_spec(ball, other) {
        None => (v, None),
        Some(e) => match other.colliding.kind {
            Collider::Goal(side) => (v, Some(side.opposite_spec())),
            _ => (bounce_spec(v, e), None),
        },
    }
}

/// The response of `ball`, currently moving at `moving`, to `other`;
/// returns the scorer if `other` is a goal that the ball reached.
pub fn respond(moving: &mut Moving, ball: &Body, other: &Body) -> (r: Option<Player>)
    requires
        velocity_ok(old(moving).velocity),
    ensures
        (final(moving).velocity, r) == respond_spec(old(moving).velocity, *ball, *other),
        velocity_ok(final(moving).velocity),
{
    match overlap(ball, other) {
        None => None,
        Some(e) => match other.colliding.kind {
            Collider::Goal(side) => Some(side.opposite()),
            _ => {
                proof {
                    lemma_bounce_preserves_speed(moving.velocity, e);
                }
                bounce(moving, e);
                None
            },
        },
    }
}

/// A ball that reaches a goal raises exactly one point, for the player
/// opposite the goal's side, and its velocity is not changed by it.
pub proof fn lemma_goal_never_bounces(v: Vec2, ball: Body, goal: Body, side: Player)
    requires
        goal.colliding.kind == Collider::Goal(side),
        overlap_spec(ball, goal).is_some(),
    ensures
        respond_spec(v, ball, goal) == (v, Some(side.opposite_spec())),
{
}

} // verus!
