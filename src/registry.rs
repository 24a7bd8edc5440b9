use vstd::prelude::*;
use crate::consts::{
    AREA_HEIGHT, AREA_WIDTH, BALL_SIZE, BALL_SPEED, COORD_LIMIT, MAX_STEP_MS, PADDLE_LENGTH,
    PADDLE_THICKNESS, SPEED_LIMIT, WALL_THICKNESS,
};
use crate::geometry::{abs, overlap_spec};
use crate::physics::{
    bounce_spec, clamp_step, integrate, lemma_bounce_preserves_speed, norm_sq, integrate_spec, lemma_product_bounded, paddle_velocity,
    paddle_velocity_spec, respond, respond_spec, step_fits, velocity_ok,
};
use crate::types::{Body, Collider, Colliding, Intents, Moving, Player, PongEvent, Vec2};

verus! {

/// What every stored body satisfies: a bounded velocity and a box with
/// bounded, non-negative half-extents.
pub open spec fn body_ok(b: Body) -> bool {
    &&& velocity_ok(b.moving.velocity)
    &&& 0 <= b.colliding.half_extents.x <= COORD_LIMIT
    &&& 0 <= b.colliding.half_extents.y <= COORD_LIMIT
}

/// The body positioned within the range from which a tick can start.
pub open spec fn body_in_bounds(b: Body) -> bool {
    abs(b.position.x as int) <= COORD_LIMIT && abs(b.position.y as int) <= COORD_LIMIT
}

/// Body `b` after the input mapper: a paddle takes the velocity its
/// player's intents give; other bodies are unchanged.
pub open spec fn input_spec(b: Body, intents: Intents) -> Body {
    match b.colliding.kind {
        Collider::Paddle(side) => Body {
            moving: Moving { velocity: paddle_velocity_spec(side, intents) },
            ..b
        },
        _ => b,
    }
}

/// Body `b` after a new rally starts: a ball goes back to the center with
/// the launch velocity; other bodies are unchanged.
pub open spec fn reset_spec(b: Body) -> Body {
    match b.colliding.kind {
        Collider::Ball => Body {
            position: Vec2 { x: 0, y: 0 },
            moving: Moving { velocity: Vec2 { x: BALL_SPEED, y: BALL_SPEED } },
            ..b
        },
        _ => b,
    }
}

/// The velocity of the ball at index `i` and the goal events raised, after
/// it has been tested against the first `n` bodies of `s` in order (itself
/// excluded). Each response sees the velocity left by the previous ones.
pub open spec fn resolve_prefix(s: Seq<Body>, i: int, n: int) -> (Vec2, Seq<PongEvent>)
    decreases n,
{
    if n <= 0 {
        (s[i].moving.velocity, Seq::empty())
    } else {
        let prev = resolve_prefix(s, i, n - 1);
        if n - 1 == i {
            prev
        } else {
            let r = respond_spec(prev.0, s[i], s[n - 1]);
            match r.1 {
                Some(p) => (r.0, prev.1.push(PongEvent::Goal(p))),
                None => (r.0, prev.1),
            }
        }
    }
}

pub open spec fn is_goal(kind: Collider) -> bool {
    match kind {
        Collider::Goal(_) => true,
        _ => false,
    }
}

/// How many of the first `n` bodies of `s` are goals that the ball at index
/// `i` overlaps.
pub open spec fn goal_hits(s: Seq<Body>, i: int, n: int) -> nat
    decreases n,
{
    if n <= 0 {
        0
    } else {
        goal_hits(s, i, n - 1) + if n - 1 != i && is_goal(s[n - 1].colliding.kind) && overlap_spec(
            s[i],
            s[n - 1],
        ).is_some() {
            1nat
        } else {
            0nat
        }
    }
}

/// How many of the first `n` bodies of `s` are bodies other than goals
/// that the ball at index `i` overlaps.
pub open spec fn bounce_hits(s: Seq<Body>, i: int, n: int) -> nat
    decreases n,
{
    if n <= 0 {
        0
    } else {
        bounce_hits(s, i, n - 1) + if n - 1 != i && !is_goal(s[n - 1].colliding.kind) && overlap_spec(
            s[i],
            s[n - 1],
        ).is_some() {
            1nat
        } else {
            0nat
        }
    }
}

proof fn lemma_resolve_counts(s: Seq<Body>, i: int, n: int)
    requires
        0 <= i < s.len(),
        0 <= n <= s.len(),
        velocity_ok(s[i].moving.velocity),
    ensures
        resolve_prefix(s, i, n).1.len() == goal_hits(s, i, n),
        abs(resolve_prefix(s, i, n).0.x as int) == abs(s[i].moving.velocity.x as int),
        abs(resolve_prefix(s, i, n).0.y as int) == abs(s[i].moving.velocity.y as int),
        velocity_ok(resolve_prefix(s, i, n).0),
        bounce_hits(s, i, n) == 0 ==> resolve_prefix(s, i, n).0 == s[i].moving.velocity,
    decreases n,
{
    if n > 0 {
        lemma_resolve_counts(s, i, n - 1);
        let prev = resolve_prefix(s, i, n - 1);
        if n - 1 != i {
            match overlap_spec(s[i], s[n - 1]) {
                Some(e) => {
                    lemma_bounce_preserves_speed(prev.0, e);
                },
                None => {},
            }
        }
    }
}

/// The resolver answers contact and only contact: the ball at index `i`
/// responds to body `j` exactly when their boxes overlap. Without overlap the
/// ball's velocity and the events are left as they were; a goal it overlaps
/// adds one event for the player opposite the goal's side; any other body it
/// overlaps bounces it off the struck edge.
pub proof fn lemma_response_iff_contact(s: Seq<Body>, i: int, j: int)
    requires
        0 <= i < s.len(),
        0 <= j < s.len(),
        i != j,
    ensures
        ({
            let before = resolve_prefix(s, i, j);
            let after = resolve_prefix(s, i, j + 1);
            match overlap_spec(s[i], s[j]) {
                None => after == before,
                Some(e) => match s[j].colliding.kind {
                    Collider::Goal(side) => after == (
                        before.0,
                        before.1.push(PongEvent::Goal(side.opposite_spec())),
                    ),
                    _ => after == (bounce_spec(before.0, e), before.1),
                },
            }
        }),
{
}

/// Resolving a ball against the whole registry keeps its speed: every
/// response is a sign change of one component or none, so each component
/// keeps its magnitude.
pub proof fn lemma_resolve_keeps_speed(s: Seq<Body>, i: int)
    requires
        0 <= i < s.len(),
        velocity_ok(s[i].moving.velocity),
    ensures
        abs(resolve_prefix(s, i, s.len() as int).0.x as int) == abs(s[i].moving.velocity.x as int),
        abs(resolve_prefix(s, i, s.len() as int).0.y as int) == abs(s[i].moving.velocity.y as int),
        norm_sq(resolve_prefix(s, i, s.len() as int).0) == norm_sq(s[i].moving.velocity),
{
    lemma_resolve_counts(s, i, s.len() as int);
    let v = s[i].moving.velocity;
    let w = resolve_prefix(s, i, s.len() as int).0;
    assert(w.x * w.x == v.x * v.x) by (nonlinear_arith)
        requires
            w.x == v.x || w.x == -v.x,
    ;
    assert(w.y * w.y == v.y * v.y) by (nonlinear_arith)
        requires
            w.y == v.y || w.y == -v.y,
    ;
}

/// Resolving a ball against the whole registry raises one goal event per
/// goal it overlaps, so exactly one when it overlaps exactly one goal; and
/// when every body it overlaps is a goal, its velocity is unchanged.
pub proof fn lemma_resolve_goals(s: Seq<Body>, i: int)
    requires
        0 <= i < s.len(),
        velocity_ok(s[i].moving.velocity),
    ensures
        resolve_prefix(s, i, s.len() as int).1.len() == goal_hits(s, i, s.len() as int),
        bounce_hits(s, i, s.len() as int) == 0 ==> resolve_prefix(s, i, s.len() as int).0
            == s[i].moving.velocity,
{
    lemma_resolve_counts(s, i, s.len() as int);
}

/// The bodies and the goal events after the balls among the first `k`
/// bodies of `s` have been resolved, in registry order.
pub open spec fn collide_upto(s: Seq<Body>, k: int) -> (Seq<Body>, Seq<PongEvent>)
    decreases k,
{
    if k <= 0 {
        (s, Seq::empty())
    } else {
        let prev = collide_upto(s, k - 1);
        let t = prev.0;
        if t[k - 1].colliding.kind == Collider::Ball {
            let r = resolve_prefix(t, k - 1, t.len() as int);
            (
                t.update(k - 1, Body { moving: Moving { velocity: r.0 }, ..t[k - 1] }),
                prev.1 + r.1,
            )
        } else {
            prev
        }
    }
}

/// The bodies and goal events after the collision resolver has run over `s`.
pub open spec fn collide_spec(s: Seq<Body>) -> (Seq<Body>, Seq<PongEvent>) {
    collide_upto(s, s.len() as int)
}

/// Indices, in order, of the first `n` bodies of `s` whose role is `kind`.
pub open spec fn ids_with_role_spec(s: Seq<Body>, kind: Collider, n: int) -> Seq<usize>
    decreases n,
{
    if n <= 0 {
        Seq::empty()
    } else if s[n - 1].colliding.kind == kind {
        ids_with_role_spec(s, kind, n - 1).push((n - 1) as usize)
    } else {
        ids_with_role_spec(s, kind, n - 1)
    }
}

pub open spec fn make_body(id: usize, x: int, y: int, half_x: int, half_y: int, kind: Collider, vx: int, vy: int) -> Body {
    Body {
        id,
        position: Vec2 { x: x as i64, y: y as i64 },
        moving: Moving { velocity: Vec2 { x: vx as i64, y: vy as i64 } },
        colliding: Colliding { kind, half_extents: Vec2 { x: half_x as i64, y: half_y as i64 } },
    }
}

/// The scene at start: the top and bottom walls, the left and right goals,
/// the ball at the center with the launch velocity, and the two paddles.
pub open spec fn initial_bodies() -> Seq<Body> {
    seq![
        make_body(0, 0, AREA_HEIGHT / 2, AREA_WIDTH / 2, WALL_THICKNESS / 2, Collider::Wall, 0, 0),
        make_body(1, 0, -AREA_HEIGHT / 2, AREA_WIDTH / 2, WALL_THICKNESS / 2, Collider::Wall, 0, 0),
        make_body(2, (WALL_THICKNESS - AREA_WIDTH) / 2, 0, WALL_THICKNESS / 2,
            (AREA_HEIGHT - WALL_THICKNESS) / 2, Collider::Goal(Player::Left), 0, 0),
        make_body(3, (AREA_WIDTH - WALL_THICKNESS) / 2, 0, WALL_THICKNESS / 2,
            (AREA_HEIGHT - WALL_THICKNESS) / 2, Collider::Goal(Player::Right), 0, 0),
        make_body(4, 0, 0, BALL_SIZE / 2, BALL_SIZE / 2, Collider::Ball, BALL_SPEED as int, BALL_SPEED as int),
        make_body(5, -AREA_WIDTH / 2 + WALL_THICKNESS + PADDLE_THICKNESS, 0, PADDLE_THICKNESS / 2,
            PADDLE_LENGTH / 2, Collider::Paddle(Player::Left), 0, 0),
        make_body(6, AREA_WIDTH / 2 - WALL_THICKNESS - PADDLE_THICKNESS, 0, PADDLE_THICKNESS / 2,
            PADDLE_LENGTH / 2, Collider::Paddle(Player::Right), 0, 0),
    ]
}

/// The simulated bodies, indexed by their stable ids.
pub struct Registry {
    bodies: Vec<Body>,
}

impl View for Registry {
    type V = Seq<Body>;

    closed spec fn view(&self) -> Seq<Body> {
        self.bodies@
    }
}

impl Registry {
    /// Each body sits at the index of its id and is well-formed.
    pub open spec fn wf(&self) -> bool {
        forall|i: int| 0 <= i < self@.len() ==> #[trigger] self@[i].id == i && body_ok(self@[i])
    }

    /// Every body lies within the range from which a tick can start.
    pub open spec fn in_bounds_spec(&self) -> bool {
        forall|i: int| 0 <= i < self@.len() ==> body_in_bounds(#[trigger] self@[i])
    }

    pub fn new() -> (r: Registry)
        ensures
            r.wf(),
            r@ == Seq::<Body>::empty(),
    {
        Registry { bodies: Vec::new() }
    }

    pub fn len(&self) -> (r: usize)
        ensures
            r == self@.len(),
    {
        self.bodies.len()
    }

    /// Adds a body and returns its id.
    pub fn insert(&mut self, position: Vec2, moving: Moving, colliding: Colliding) -> (id: usize)
        requires
            old(self).wf(),
            old(self)@.len() < usize::MAX,
            body_ok(Body { id: 0, position, moving, colliding }),
        ensures
            final(self).wf(),
            id == old(self)@.len(),
            final(self)@ == old(self)@.push(Body { id, position, moving, colliding }),
    {
        let id = self.bodies.len();
        self.bodies.push(Body { id, position, moving, colliding });
        proof {
            assert forall|i: int| 0 <= i < self@.len() implies #[trigger] self@[i].id == i && body_ok(self@[i]) by {
                if i < id {
                    assert(self@[i] == old(self)@[i]);
                }
            }
        }
        id
    }

    /// The body with id `id`, if there is one.
    pub fn get(&self, id: usize) -> (r: Option<Body>)
        ensures
            r == (if id < self@.len() { Some(self@[id as int]) } else { None::<Body> }),
    {
        if id < self.bodies.len() {
            Some(self.bodies[id])
        } else {
            None
        }
    }

    /// The ids of all bodies with role `kind`, in increasing order.
    pub fn ids_with_role(&self, kind: Collider) -> (r: Vec<usize>)
        ensures
            r@ == ids_with_role_spec(self@, kind, self@.len() as int),
    {
        let mut r: Vec<usize> = Vec::new();
        let mut i: usize = 0;
        while i < self.bodies.len()
            invariant
                i <= self@.len(),
                r@ == ids_with_role_spec(self@, kind, i as int),
            decreases self@.len() - i,
        {
            if self.bodies[i].colliding.kind == kind {
                r.push(i);
            }
            i = i + 1;
        }
        r
    }

    /// Tests that every body lies within the range from which a tick can start.
    pub fn in_bounds(&self) -> (r: bool)
        ensures
            r == self.in_bounds_spec(),
    {
        let mut i: usize = 0;
        while i < self.bodies.len()
            invariant
                i <= self@.len(),
                forall|j: int| 0 <= j < i ==> body_in_bounds(#[trigger] self@[j]),
            decreases self@.len() - i,
        {
            let p = self.bodies[i].position;
            if p.x < -COORD_LIMIT || p.x > COORD_LIMIT || p.y < -COORD_LIMIT || p.y > COORD_LIMIT {
                return false;
            }
            i = i + 1;
        }
        true
    }
    /// Sets each paddle's velocity from its player's intents.
    pub fn paddle_input(&mut self, intents: &Intents)
        requires
            old(self).wf(),
        ensures
            final(self).wf(),
            final(self)@ == old(self)@.map_values(|b: Body| input_spec(b, *intents)),
    {
        let n = self.bodies.len();
        let mut i: usize = 0;
        while i < n
            invariant
                n == old(self)@.len(),
                self@.len() == n,
                i <= n,
                old(self).wf(),
                forall|j: int| 0 <= j < i ==> #[trigger] self@[j] == input_spec(old(self)@[j], *intents),
                forall|j: int| i <= j < n ==> #[trigger] self@[j] == old(self)@[j],
            decreases n - i,
        {
            let mut b = self.bodies[i];
            match b.colliding.kind {
                Collider::Paddle(side) => {
                    b.moving.velocity = paddle_velocity(side, intents);
                },
                _ => {},
            }
            self.bodies.set(i, b);
            i = i + 1;
        }
        assert(self@ =~= old(self)@.map_values(|b: Body| input_spec(b, *intents)));
    }

    /// Moves every ball and paddle by its velocity over `dt` milliseconds,
    /// capped at `MAX_STEP_MS`.
    pub fn move_system(&mut self, dt: u64)
        requires
            old(self).wf(),
            old(self).in_bounds_spec(),
        ensures
            final(self).wf(),
            final(self)@ == old(self)@.map_values(|b: Body| integrate_spec(b, dt)),
    {
        let n = self.bodies.len();
        let mut i: usize = 0;
        while i < n
            invariant
                n == old(self)@.len(),
                self@.len() == n,
                i <= n,
                old(self).wf(),
                old(self).in_bounds_spec(),
                forall|j: int| 0 <= j < i ==> #[trigger] self@[j] == integrate_spec(old(self)@[j], dt),
                forall|j: int| i <= j < n ==> #[trigger] self@[j] == old(self)@[j],
            decreases n - i,
        {
            let mut b = self.bodies[i];
            proof {
                assert(body_ok(old(self)@[i as int]));
                assert(body_in_bounds(old(self)@[i as int]));
                lemma_product_bounded(b.moving.velocity.x, clamp_step(dt));
                lemma_product_bounded(b.moving.velocity.y, clamp_step(dt));
                assert(step_fits(b, dt));
            }
            integrate(&mut b, dt);
            self.bodies.set(i, b);
            i = i + 1;
        }
        assert(self@ =~= old(self)@.map_values(|b: Body| integrate_spec(b, dt)));
        assert forall|i: int| 0 <= i < self@.len() implies #[trigger] self@[i].id == i && body_ok(self@[i]) by {
            assert(body_ok(old(self)@[i]));
        }
    }

    /// Resolves the ball at index `i` against every other body in order.
    fn resolve_ball(&mut self, i: usize) -> (events: Vec<PongEvent>)
        requires
            old(self).wf(),
            i < old(self)@.len(),
        ensures
            final(self).wf(),
            final(self)@ == old(self)@.update(
                i as int,
                Body {
                    moving: Moving { velocity: resolve_prefix(old(self)@, i as int, old(self)@.len() as int).0 },
                    ..old(self)@[i as int]
                },
            ),
            events@ == resolve_prefix(old(self)@, i as int, old(self)@.len() as int).1,
    {
        let n = self.bodies.len();
        let ball = self.bodies[i];
        let mut moving = ball.moving;
        let mut events: Vec<PongEvent> = Vec::new();
        let mut j: usize = 0;
        assert(body_ok(self@[i as int]));
        while j < n
            invariant
                n == self@.len(),
                i < n,
                self@ == old(self)@,
                ball == self@[i as int],
                velocity_ok(moving.velocity),
                j <= n,
                (moving.velocity, events@) == resolve_prefix(self@, i as int, j as int),
            decreases n - j,
        {
            if j != i {
                let other = self.bodies[j];
                match respond(&mut moving, &ball, &other) {
                    Some(p) => {
                        events.push(PongEvent::Goal(p));
                    },
                    None => {},
                }
            }
            j = j + 1;
        }
        self.bodies.set(i, Body { moving, ..ball });
        proof {
            assert forall|k: int| 0 <= k < self@.len() implies #[trigger] self@[k].id == k && body_ok(self@[k]) by {
                assert(old(self)@[k].id == k);
            }
        }
        events
    }

    /// Tests each ball against every other body, in registry order: walls,
    /// paddles and balls bounce it, goals raise an event.
    pub fn ball_collide_system(&mut self) -> (events: Vec<PongEvent>)
        requires
            old(self).wf(),
        ensures
            final(self).wf(),
            final(self)@ == collide_spec(old(self)@).0,
            events@ == collide_spec(old(self)@).1,
    {
        let n = self.bodies.len();
        let mut events: Vec<PongEvent> = Vec::new();
        let mut i: usize = 0;
        while i < n
            invariant
                n == old(self)@.len(),
                self@.len() == n,
                i <= n,
                self.wf(),
                (self@, events@) == collide_upto(old(self)@, i as int),
            decreases n - i,
        {
            let is_ball = match self.bodies[i].colliding.kind {
                Collider::Ball => true,
                _ => false,
            };
            if is_ball {
                let mut found = self.resolve_ball(i);
                events.append(&mut found);
            }
            i = i + 1;
        }
        events
    }

    /// Puts every ball back at the center with the launch velocity.
    pub fn ready_enter(&mut self)
        requires
            old(self).wf(),
        ensures
            final(self).wf(),
            final(self)@ == old(self)@.map_values(|b: Body| reset_spec(b)),
    {
        let n = self.bodies.len();
        let mut i: usize = 0;
        while i < n
            invariant
                n == old(self)@.len(),
                self@.len() == n,
                i <= n,
                old(self).wf(),
                forall|j: int| 0 <= j < i ==> #[trigger] self@[j] == reset_spec(old(self)@[j]),
                forall|j: int| i <= j < n ==> #[trigger] self@[j] == old(self)@[j],
            decreases n - i,
        {
            let mut b = self.bodies[i];
            match b.colliding.kind {
                Collider::Ball => {
                    b.position = Vec2 { x: 0, y: 0 };
                    b.moving.velocity = Vec2 { x: BALL_SPEED, y: BALL_SPEED };
                },
                _ => {},
            }
            self.bodies.set(i, b);
            i = i + 1;
        }
        assert(self@ =~= old(self)@.map_values(|b: Body| reset_spec(b)));
    }
}

fn add_body(r: &mut Registry, x: i64, y: i64, half_x: i64, half_y: i64, kind: Collider, vx: i64, vy: i64)
    requires
        old(r).wf(),
        old(r)@.len() < 7,
        0 <= half_x <= COORD_LIMIT,
        0 <= half_y <= COORD_LIMIT,
        velocity_ok(Vec2 { x: vx, y: vy }),
    ensures
        final(r).wf(),
        final(r)@ == old(r)@.push(
            make_body(old(r)@.len() as usize, x as int, y as int, half_x as int, half_y as int, kind, vx as int, vy as int),
        ),
{
    let position = Vec2 { x, y };
    let moving = Moving { velocity: Vec2 { x: vx, y: vy } };
    let colliding = Colliding { kind, half_extents: Vec2 { x: half_x, y: half_y } };
    r.insert(position, moving, colliding);
}

/// Builds the scene: walls, goals, the ball and the paddles.
pub fn setup() -> (r: Registry)
    ensures
        r.wf(),
        r.in_bounds_spec(),
        r@ == initial_bodies(),
{
    let mut r = Registry::new();
    add_body(&mut r, 0, AREA_HEIGHT / 2, AREA_WIDTH / 2, WALL_THICKNESS / 2, Collider::Wall, 0, 0);
    add_body(&mut r, 0, -AREA_HEIGHT / 2, AREA_WIDTH / 2, WALL_THICKNESS / 2, Collider::Wall, 0, 0);
    add_body(&mut r, (WALL_THICKNESS - AREA_WIDTH) / 2, 0, WALL_THICKNESS / 2,
        (AREA_HEIGHT - WALL_THICKNESS) / 2, Collider::Goal(Player::Left), 0, 0);
    add_body(&mut r, (AREA_WIDTH - WALL_THICKNESS) / 2, 0, WALL_THICKNESS / 2,
        (AREA_HEIGHT - WALL_THICKNESS) / 2, Collider::Goal(Player::Right), 0, 0);
    add_body(&mut r, 0, 0, BALL_SIZE / 2, BALL_SIZE / 2, Collider::Ball, BALL_SPEED, BALL_SPEED);
    add_body(&mut r, -AREA_WIDTH / 2 + WALL_THICKNESS + PADDLE_THICKNESS, 0, PADDLE_THICKNESS / 2,
        PADDLE_LENGTH / 2, Collider::Paddle(Player::Left), 0, 0);
    add_body(&mut r, AREA_WIDTH / 2 - WALL_THICKNESS - PADDLE_THICKNESS, 0, PADDLE_THICKNESS / 2,
        PADDLE_LENGTH / 2, Collider::Paddle(Player::Right), 0, 0);
    assert(r@ =~= initial_bodies());
    r
}

} // verus!
