use vstd::prelude::*;
use crate::flow::{next_spec, Flow, FlowAction};
use crate::geometry::{depth_x, overlap_spec};
use crate::physics::{integrate_spec, is_moving};
use crate::registry::{
    body_in_bounds, body_ok, collide_spec, collide_upto, goal_hits, initial_bodies, input_spec,
    lemma_resolve_goals, reset_spec, resolve_prefix, setup, Registry,
};
use crate::types::{AppState, Body, Collider, Intents, Moving, Player, PongEvent, Score, Vec2};

verus! {

/// The scorer of the first goal event, if any.
pub open spec fn first_scorer(events: Seq<PongEvent>) -> Option<Player> {
    if events.len() > 0 {
        match events[0] {
            PongEvent::Goal(p) => Some(p),
        }
    } else {
        None
    }
}

/// The bodies and goal events after one tick of play: the input mapper,
/// then the motion integrator, then the collision resolver.
pub open spec fn play_spec(s: Seq<Body>, intents: Intents, dt: u64) -> (Seq<Body>, Seq<PongEvent>) {
    collide_spec(
        s.map_values(|b: Body| input_spec(b, intents)).map_values(|b: Body| integrate_spec(b, dt)),
    )
}

/// The arena as `setup` built it: the same bodies with the same roles and
/// boxes (so exactly one ball and two paddles), and the walls and goals
/// where they were placed.
pub open spec fn arena_ok(s: Seq<Body>) -> bool {
    &&& s.len() == initial_bodies().len()
    &&& forall|i: int| 0 <= i < s.len() ==> #[trigger] s[i].colliding == initial_bodies()[i].colliding
    &&& forall|i: int| 0 <= i < s.len() && !is_moving(s[i].colliding.kind) ==> #[trigger] s[i] == initial_bodies()[i]
}

proof fn lemma_initial_roles()
    ensures
        initial_bodies().len() == 7,
        initial_bodies()[0].colliding.kind == Collider::Wall,
        initial_bodies()[1].colliding.kind == Collider::Wall,
        initial_bodies()[2].colliding.kind == Collider::Goal(Player::Left),
        initial_bodies()[3].colliding.kind == Collider::Goal(Player::Right),
        initial_bodies()[4].colliding.kind == Collider::Ball,
        initial_bodies()[5].colliding.kind == Collider::Paddle(Player::Left),
        initial_bodies()[6].colliding.kind == Collider::Paddle(Player::Right),
        initial_bodies()[2].position.x == -9_900_000,
        initial_bodies()[2].position.y == 0,
        initial_bodies()[3].position == (Vec2 { x: 9_900_000, y: 0 }),
        initial_bodies()[2].colliding.half_extents == (Vec2 { x: 100_000, y: 4_900_000 }),
        initial_bodies()[3].colliding.half_extents == (Vec2 { x: 100_000, y: 4_900_000 }),
        initial_bodies()[4].colliding.half_extents == (Vec2 { x: 100_000, y: 100_000 }),
{
}

/// Starting a rally keeps the arena.
proof fn lemma_arena_reset(s: Seq<Body>)
    requires
        arena_ok(s),
    ensures
        arena_ok(s.map_values(|b: Body| reset_spec(b))),
{
    let r = s.map_values(|b: Body| reset_spec(b));
    assert forall|i: int| 0 <= i < r.len() && !is_moving(r[i].colliding.kind) implies #[trigger] r[i] == initial_bodies()[i] by {
        assert(s[i] == initial_bodies()[i]);
    }
}

/// A tick of play keeps the arena, and the single ball, which cannot reach
/// both goals at once, raises at most one goal event.
proof fn lemma_arena_play(s: Seq<Body>, intents: Intents, dt: u64)
    requires
        arena_ok(s),
        forall|i: int| 0 <= i < s.len() ==> body_ok(#[trigger] s[i]),
    ensures
        arena_ok(play_spec(s, intents, dt).0),
        play_spec(s, intents, dt).1.len() <= 1,
{
    lemma_initial_roles();
    let a = s.map_values(|b: Body| input_spec(b, intents));
    let b = a.map_values(|b: Body| integrate_spec(b, dt));
    assert forall|i: int| 0 <= i < b.len() implies #[trigger] b[i].colliding == initial_bodies()[i].colliding by {
        assert(s[i].colliding == initial_bodies()[i].colliding);
    }
    assert forall|i: int| 0 <= i < b.len() && !is_moving(b[i].colliding.kind) implies #[trigger] b[i] == initial_bodies()[i] by {
        assert(s[i].colliding == initial_bodies()[i].colliding);
        assert(s[i] == initial_bodies()[i]);
    }
    assert(arena_ok(b));
    assert(b[4].moving.velocity == s[4].moving.velocity);
    assert(body_ok(s[4]));
    let e = Seq::<PongEvent>::empty();
    assert(b[0].colliding.kind == Collider::Wall);
    assert(b[1].colliding.kind == Collider::Wall);
    assert(b[2].colliding.kind == Collider::Goal(Player::Left));
    assert(b[3].colliding.kind == Collider::Goal(Player::Right));
    assert(b[4].colliding.kind == Collider::Ball);
    assert(b[5].colliding.kind == Collider::Paddle(Player::Left));
    assert(b[6].colliding.kind == Collider::Paddle(Player::Right));
    assert(collide_upto(b, 0) == (b, e));
    assert(collide_upto(b, 1) == (b, e));
    assert(collide_upto(b, 2) == (b, e));
    assert(collide_upto(b, 3) == (b, e));
    assert(collide_upto(b, 4) == (b, e));
    let r = resolve_prefix(b, 4, 7);
    let t = b.update(4, Body { moving: Moving { velocity: r.0 }, ..b[4] });
    assert(collide_upto(b, 5) == (t, e + r.1));
    assert(collide_upto(b, 6) == (t, e + r.1));
    assert(collide_upto(b, 7) == (t, e + r.1));
    assert(play_spec(s, intents, dt) == (t, e + r.1));
    assert forall|i: int| 0 <= i < t.len() && !is_moving(t[i].colliding.kind) implies #[trigger] t[i] == initial_bodies()[i] by {
        assert(b[i].colliding == initial_bodies()[i].colliding);
        assert(b[i] == initial_bodies()[i]);
    }
    assert forall|i: int| 0 <= i < t.len() implies #[trigger] t[i].colliding == initial_bodies()[i].colliding by {
        assert(b[i].colliding == initial_bodies()[i].colliding);
    }
    lemma_resolve_goals(b, 4);
    assert(b[2] == initial_bodies()[2]);
    assert(b[3] == initial_bodies()[3]);
    assert(b[4].colliding == initial_bodies()[4].colliding);
    assert(goal_hits(b, 4, 0) == 0);
    assert(goal_hits(b, 4, 1) == 0);
    assert(goal_hits(b, 4, 2) == 0);
    let hit_left = overlap_spec(b[4], b[2]).is_some();
    let hit_right = overlap_spec(b[4], b[3]).is_some();
    assert(goal_hits(b, 4, 3) == if hit_left { 1nat } else { 0nat });
    assert(goal_hits(b, 4, 4) == goal_hits(b, 4, 3) + if hit_right { 1nat } else { 0nat });
    assert(!(hit_left && hit_right)) by {
        if hit_left {
            assert(depth_x(b[4], b[2]) > 0);
        }
        if hit_right {
            assert(depth_x(b[4], b[3]) > 0);
        }
    }
    assert(goal_hits(b, 4, 5) == goal_hits(b, 4, 4));
    assert(goal_hits(b, 4, 6) == goal_hits(b, 4, 5));
    assert(goal_hits(b, 4, 7) == goal_hits(b, 4, 6));
    assert(goal_hits(b, 4, 7) <= 1);
    assert((e + r.1).len() == r.1.len());
}

/// The whole simulation: the game-flow state machine and the bodies.
pub struct Game {
    pub flow: Flow,
    pub world: Registry,
}

impl Game {
    /// The state machine is well-formed, and the bodies form the arena.
    pub open spec fn wf(&self) -> bool {
        self.flow.wf() && self.world.wf() && arena_ok(self.world@)
    }

    /// A game on the title screen, nil all, with the scene set up.
    pub fn new() -> (r: Game)
        ensures
            r.wf(),
            r.flow == (Flow { state: AppState::Title, timer: None, score: Score { left: 0, right: 0 } }),
            r.world@ == initial_bodies(),
            r.world.in_bounds_spec(),
    {
        Game { flow: Flow::new(), world: setup() }
    }

    /// Tests that every body lies within the range from which a tick can start.
    pub fn in_bounds(&self) -> (r: bool)
        ensures
            r == self.world.in_bounds_spec(),
    {
        self.world.in_bounds()
    }

    /// Runs one tick of `dt` milliseconds. In play, the paddles take their
    /// velocities from `intents`, the ball and paddles move, and the goal
    /// event of the tick, if any (there is at most one), is handed to the
    /// state machine, which adds its point. On
    /// entering `Ready` the ball goes back to the center.
    pub fn tick(&mut self, intents: Intents, dt: u64) -> (r: FlowAction)
        requires
            old(self).wf(),
            old(self).flow.state == AppState::InGame ==> old(self).world.in_bounds_spec(),
        ensures
            final(self).wf(),
            ({
                let in_play = old(self).flow.state == AppState::InGame;
                let played = play_spec(old(self).world@, intents, dt);
                let bodies = if in_play { played.0 } else { old(self).world@ };
                let goal = if in_play { first_scorer(played.1) } else { None };
                &&& in_play ==> played.1.len() <= 1
                &&& in_play ==> final(self).flow.score.left + final(self).flow.score.right
                    == old(self).flow.score.left + old(self).flow.score.right + played.1.len()
                &&& (final(self).flow, r) == next_spec(old(self).flow, dt, intents.start, intents.quit, goal)
                &&& final(self).world@ == if r == FlowAction::Enter(AppState::Ready) {
                    bodies.map_values(|b: Body| reset_spec(b))
                } else {
                    bodies
                }
            }),
    {
        let mut goal: Option<Player> = None;
        let in_play = match self.flow.state {
            AppState::InGame => true,
            _ => false,
        };
        if in_play {
            proof {
                assert forall|i: int| 0 <= i < self.world@.len() implies body_ok(#[trigger] self.world@[i]) by {
                    assert(self.world@[i].id == i);
                }
                lemma_arena_play(self.world@, intents, dt);
            }
            self.world.paddle_input(&intents);
            assert forall|i: int| 0 <= i < self.world@.len() implies body_in_bounds(#[trigger] self.world@[i]) by {
                assert(body_in_bounds(old(self).world@[i]));
            }
            self.world.move_system(dt);
            let events = self.world.ball_collide_system();
            if events.len() > 0 {
                match events[0] {
                    PongEvent::Goal(p) => {
                        goal = Some(p);
                    },
                }
            }
        }
        let r = self.flow.advance(dt, intents.start, intents.quit, goal);
        proof {
            lemma_arena_reset(self.world@);
        }
        match r {
            FlowAction::Enter(AppState::Ready) => {
                self.world.ready_enter();
            },
            _ => {},
        }
        r
    }
}

} // verus!
