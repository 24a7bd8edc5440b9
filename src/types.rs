use vstd::prelude::*;

verus! {

/// One of the two players; also names a side of the arena.
#[derive(Clone, Copy, Debug, PartialEq, Eq, Structural)]
pub enum Player {
    Left,
    Right,
}

impl Player {
    pub open spec fn opposite_spec(self) -> Player {
        match self {
            Player::Left => Player::Right,
            Player::Right => Player::Left,
        }
    }

    /// The other player.
    pub fn opposite(self) -> (r: Player)
        ensures
            r == self.opposite_spec(),
    {
        match self {
            Player::Left => Player::Right,
            Player::Right => Player::Left,
        }
    }
}

/// A point or a vector in arena coordinates (origin at the arena's center,
/// y pointing up).
#[derive(Clone, Copy, Debug, PartialEq, Eq, Structural)]
pub struct Vec2 {
    pub x: i64,
    pub y: i64,
}

/// The role of a body in the simulation.
#[derive(Clone, Copy, Debug, PartialEq, Eq, Structural)]
pub enum Collider {
    Wall,
    Ball,
    Paddle(Player),
    /// A goal, tagged with the side of the arena it stands on.
    Goal(Player),
}

/// How a body moves: its velocity per millisecond.
#[derive(Clone, Copy, Debug, PartialEq, Eq, Structural)]
pub struct Moving {
    pub velocity: Vec2,
}

/// How a body collides: its role and the half-extents of its box.
#[derive(Clone, Copy, Debug, PartialEq, Eq, Structural)]
pub struct Colliding {
    pub kind: Collider,
    pub half_extents: Vec2,
}

/// A simulated object: an axis-aligned box centered on `position`.
#[derive(Clone, Copy, Debug, PartialEq, Eq, Structural)]
pub struct Body {
    pub id: usize,
    pub position: Vec2,
    pub moving: Moving,
    pub colliding: Colliding,
}

/// The edge of a box that another box ran into.
#[derive(Clone, Copy, Debug, PartialEq, Eq, Structural)]
pub enum Edge {
    Left,
    Right,
    Top,
    Bottom,
}

/// A notification raised by the collision resolver.
#[derive(Clone, Copy, Debug, PartialEq, Eq, Structural)]
pub enum PongEvent {
    /// The player who scored.
    Goal(Player),
}

//       <------- Win <--------------------
//      /                                  \
// Title -> NewGame -> Ready -> InGame -> Goal
//                        \                /
//                         <---------------
#[derive(Clone, Copy, Debug, PartialEq, Eq, Hash, Structural)]
pub enum AppState {
    Title,
    NewGame,
    Ready,
    InGame,
    Goal,
    Win,
}

#[derive(Clone, Copy, Debug, PartialEq, Eq, Structural)]
pub struct Score {
    pub left: u32,
    pub right: u32,
}

/// The logical input of one tick: which paddle directions are held, and
/// whether a start or quit request was released during the tick.
#[derive(Clone, Copy, Debug, PartialEq, Eq, Structural)]
pub struct Intents {
    pub left_up: bool,
    pub left_down: bool,
    pub right_up: bool,
    pub right_down: bool,
    pub start: bool,
    pub quit: bool,
}

impl Intents {
    /// No input at all.
    pub fn none() -> (r: Intents)
        ensures
            !r.left_up && !r.left_down && !r.right_up && !r.right_down && !r.start && !r.quit,
    {
        Intents {
            left_up: false,
            left_down: false,
            right_up: false,
            right_down: false,
            start: false,
            quit: false,
        }
    }
}

} // verus!
