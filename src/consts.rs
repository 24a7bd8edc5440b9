use vstd::prelude::*;

verus! {

// Lengths are measured in millionths of an arena unit, times in milliseconds,
// and speeds in millionths of a unit per millisecond (thousandths of a unit
// per second), so that every quantity of the simulation is an integer.

/// Millionths in one arena unit.
pub const UNIT: i64 = 1_000_000;

pub const AREA_WIDTH: i64 = 20_000_000;
pub const AREA_HEIGHT: i64 = 10_000_000;
pub const WALL_THICKNESS: i64 = 200_000;
pub const BALL_SIZE: i64 = 200_000;
pub const PADDLE_LENGTH: i64 = 1_000_000;
pub const PADDLE_THICKNESS: i64 = 300_000;

/// Speed of the ball along each axis when a rally starts (4 units per second).
pub const BALL_SPEED: i64 = 4_000;
/// Vertical speed of a paddle while its player holds a direction (6 units per second).
pub const PADDLE_SPEED: i64 = 6_000;

/// Points that win a game.
pub const GOALS_TO_WIN: u32 = 3;

pub const READY_DURATION_MS: u64 = 3_000;
pub const GOAL_DURATION_MS: u64 = 3_000;
pub const WIN_DURATION_MS: u64 = 3_000;
/// Period of the blinking winner banner.
pub const BLINK_INTERVAL_MS: u64 = 300;

/// Longest time step that the motion integrator applies at once (about 1/15 s).
pub const MAX_STEP_MS: u64 = 66;

/// Largest velocity component a body may carry.
pub const SPEED_LIMIT: i64 = 1_000_000_000_000;
/// Largest coordinate or half-extent from which a tick can start.
pub const COORD_LIMIT: i64 = 1_000_000_000_000_000_000;

} // verus!
