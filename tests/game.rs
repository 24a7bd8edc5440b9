use pong::consts::BALL_SPEED;
use pong::flow::FlowAction;
use pong::game::Game;
use pong::registry::{setup, Registry};
use pong::types::{AppState, Collider, Intents, Player, Vec2};

#[test]
fn setup_builds_the_arena() {
    let r: Registry = setup();
    assert_eq!(r.len(), 7);
    assert_eq!(r.ids_with_role(Collider::Wall), vec![0, 1]);
    assert_eq!(r.ids_with_role(Collider::Ball), vec![4]);
    assert_eq!(r.ids_with_role(Collider::Goal(Player::Right)), vec![3]);
    assert_eq!(r.ids_with_role(Collider::Paddle(Player::Left)), vec![5]);
    assert!(r.get(7).is_none());
    let top = r.get(0).unwrap();
    assert_eq!(top.position, Vec2 { x: 0, y: 5_000_000 });
    assert_eq!(top.colliding.half_extents, Vec2 { x: 10_000_000, y: 100_000 });
    let right_goal = r.get(3).unwrap();
    assert_eq!(right_goal.position, Vec2 { x: 9_900_000, y: 0 });
    assert_eq!(right_goal.colliding.half_extents, Vec2 { x: 100_000, y: 4_900_000 });
    let ball = r.get(4).unwrap();
    assert_eq!(ball.position, Vec2 { x: 0, y: 0 });
    assert_eq!(ball.moving.velocity, Vec2 { x: BALL_SPEED, y: BALL_SPEED });
    let left_paddle = r.get(5).unwrap();
    assert_eq!(left_paddle.position, Vec2 { x: -9_500_000, y: 0 });
    assert_eq!(left_paddle.colliding.half_extents, Vec2 { x: 150_000, y: 500_000 });
    assert!(r.in_bounds());
}

fn start() -> Intents {
    let mut i = Intents::none();
    i.start = true;
    i
}

#[test]
fn a_rally_ends_in_a_goal() {
    let mut g = Game::new();
    assert_eq!(g.tick(start(), 16), FlowAction::Enter(AppState::NewGame));
    assert_eq!(g.tick(Intents::none(), 16), FlowAction::Enter(AppState::Ready));
    let ball = g.world.get(4).unwrap();
    assert_eq!(ball.position, Vec2 { x: 0, y: 0 });
    // The ball does not move before play.
    g.tick(Intents::none(), 16);
    assert_eq!(g.world.get(4).unwrap().position, Vec2 { x: 0, y: 0 });
    let mut ticks = 0;
    while g.flow.state != AppState::Goal && ticks < 100_000 {
        assert!(g.in_bounds());
        g.tick(Intents::none(), 16);
        ticks += 1;
    }
    assert_eq!(g.flow.state, AppState::Goal);
    assert_eq!(g.flow.score.left + g.flow.score.right, 1);
    // After the goal countdown a new rally starts from the center.
    while g.flow.state == AppState::Goal {
        g.tick(Intents::none(), 16);
    }
    assert_eq!(g.flow.state, AppState::Ready);
    let ball = g.world.get(4).unwrap();
    assert_eq!(ball.position, Vec2 { x: 0, y: 0 });
    assert_eq!(ball.moving.velocity, Vec2 { x: BALL_SPEED, y: BALL_SPEED });
}

#[test]
fn paddles_follow_input_only_in_play() {
    let mut g = Game::new();
    let mut up = Intents::none();
    up.left_up = true;
    g.tick(up, 16);
    assert_eq!(g.world.get(5).unwrap().position, Vec2 { x: -9_500_000, y: 0 });
    g.tick(start(), 16);
    g.tick(Intents::none(), 16);
    g.tick(Intents::none(), 3_000);
    assert_eq!(g.flow.state, AppState::InGame);
    g.tick(up, 10);
    assert_eq!(g.world.get(5).unwrap().position, Vec2 { x: -9_500_000, y: 60_000 });
    assert_eq!(g.world.get(6).unwrap().position, Vec2 { x: 9_500_000, y: 0 });
}
