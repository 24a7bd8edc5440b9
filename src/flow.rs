use vstd::prelude::*;
use vstd::arithmetic::div_mod::{lemma_basic_div, lemma_div_is_ordered, lemma_div_plus_one};
use crate::consts::{BLINK_INTERVAL_MS, GOAL_DURATION_MS, GOALS_TO_WIN, READY_DURATION_MS, WIN_DURATION_MS};
use crate::types::{AppState, Player, Score};

verus! {

/// A countdown of a timed state: `elapsed_ms` of `duration_ms` have passed.
#[derive(Clone, Copy, Debug, PartialEq, Eq, Structural)]
pub struct Countdown {
    pub duration_ms: u64,
    pub elapsed_ms: u64,
}

impl Countdown {
    pub open spec fn wf(self) -> bool {
        self.elapsed_ms < self.duration_ms
    }

    pub open spec fn remaining(self) -> int {
        self.duration_ms - self.elapsed_ms
    }

    /// Whole seconds left, rounded up, as the ready banner shows them.
    pub fn seconds_left(&self) -> (r: u64)
        ensures
            r == (if self.remaining() <= 0 {
                0
            } else {
                (self.remaining() + 999) / 1000
            }),
    {
        if self.elapsed_ms >= self.duration_ms {
            return 0;
        }
        let rem = self.duration_ms - self.elapsed_ms;
        proof {
            lemma_div_plus_one(rem - 1, 1000);
        }
        (rem - 1) / 1000 + 1
    }

    /// Whether the blinking winner banner is lit: during the second half of
    /// each blink interval.
    pub fn banner_visible(&self) -> (r: bool)
        ensures
            r == (self.elapsed_ms % BLINK_INTERVAL_MS > BLINK_INTERVAL_MS / 2),
    {
        self.elapsed_ms % BLINK_INTERVAL_MS > BLINK_INTERVAL_MS / 2
    }
}

/// What a step of the state machine asks of its host.
#[derive(Clone, Copy, Debug, PartialEq, Eq, Structural)]
pub enum FlowAction {
    /// The state did not change.
    Stay,
    /// The machine entered a new state; its entry action is due.
    Enter(AppState),
    /// The players asked to leave from the title screen.
    Quit,
}

/// The game-flow state machine: its state, the countdown of a timed state,
/// and the score.
#[derive(Clone, Copy, Debug, PartialEq, Eq, Structural)]
pub struct Flow {
    pub state: AppState,
    pub timer: Option<Countdown>,
    pub score: Score,
}

/// The states that run on a countdown.
pub open spec fn is_timed(state: AppState) -> bool {
    state == AppState::Ready || state == AppState::Goal || state == AppState::Win
}

pub open spec fn duration_of(state: AppState) -> u64 {
    match state {
        AppState::Ready => READY_DURATION_MS,
        AppState::Goal => GOAL_DURATION_MS,
        AppState::Win => WIN_DURATION_MS,
        _ => 0,
    }
}

/// Either player has reached the winning score.
pub open spec fn is_won(score: Score) -> bool {
    score.left >= GOALS_TO_WIN || score.right >= GOALS_TO_WIN
}

/// The player announced as the winner: the one with more points. A
/// well-formed machine in `Win` has exactly one player at the winning score,
/// and that player is the one announced; a level score never reaches `Win`
/// and is announced as `Right`.
pub fn winner(score: &Score) -> (r: Player)
    ensures
        score.left >= GOALS_TO_WIN && score.right < GOALS_TO_WIN ==> r == Player::Left,
        score.right >= GOALS_TO_WIN && score.left < GOALS_TO_WIN ==> r == Player::Right,
        r == (if score.left > score.right {
            Player::Left
        } else {
            Player::Right
        }),
{
    if score.left > score.right {
        Player::Left
    } else {
        Player::Right
    }
}

/// The score with one more point for `p`.
pub open spec fn scored(score: Score, p: Player) -> Score {
    match p {
        Player::Left => Score { left: (score.left + 1) as u32, ..score },
        Player::Right => Score { right: (score.right + 1) as u32, ..score },
    }
}

/// The machine just after entering `state` with score `score`: a timed
/// state starts a fresh countdown, and a new game starts from nil all.
pub open spec fn entered(state: AppState, score: Score) -> Flow {
    Flow {
        state,
        timer: if is_timed(state) {
            Some(Countdown { duration_ms: duration_of(state), elapsed_ms: 0 })
        } else {
            None
        },
        score: if state == AppState::NewGame {
            Score { left: 0, right: 0 }
        } else {
            score
        },
    }
}

/// One step of a timed state: when `dt` covers the time left, enter `next`;
/// otherwise count `dt` down.
pub open spec fn countdown_step(f: Flow, dt: u64, next: AppState) -> (Flow, FlowAction) {
    let c = f.timer.unwrap();
    if dt >= c.remaining() {
        (entered(next, f.score), FlowAction::Enter(next))
    } else {
        (Flow { timer: Some(Countdown { elapsed_ms: (c.elapsed_ms + dt) as u64, ..c }), ..f }, FlowAction::Stay)
    }
}

/// One step of the machine, `dt` milliseconds after the previous one, with
/// the start and quit requests of the step and the scorer of a goal, if any.
pub open spec fn next_spec(f: Flow, dt: u64, start: bool, quit: bool, goal: Option<Player>) -> (Flow, FlowAction) {
    match f.state {
        AppState::Title => if start {
            (entered(AppState::NewGame, f.score), FlowAction::Enter(AppState::NewGame))
        } else if quit {
            (f, FlowAction::Quit)
        } else {
            (f, FlowAction::Stay)
        },
        AppState::NewGame => (entered(AppState::Ready, f.score), FlowAction::Enter(AppState::Ready)),
        AppState::Ready => countdown_step(f, dt, AppState::InGame),
        AppState::InGame => match goal {
            Some(p) => (entered(AppState::Goal, scored(f.score, p)), FlowAction::Enter(AppState::Goal)),
            None => (f, FlowAction::Stay),
        },
        AppState::Goal => countdown_step(
            f,
            dt,
            if is_won(f.score) {
                AppState::Win
            } else {
                AppState::Ready
            },
        ),
        AppState::Win => countdown_step(f, dt, AppState::Title),
    }
}

/// The choice on the title screen: a start request wins over a quit request.
pub fn title_update(start: bool, quit: bool) -> (r: FlowAction)
    ensures
        r == (if start {
            FlowAction::Enter(AppState::NewGame)
        } else if quit {
            FlowAction::Quit
        } else {
            FlowAction::Stay
        }),
{
    if start {
        FlowAction::Enter(AppState::NewGame)
    } else if quit {
        FlowAction::Quit
    } else {
        FlowAction::Stay
    }
}

impl Flow {
    /// The countdown matches the state, and the score obeys the rules of
    /// play: no one is past the winning score and at most one player has
    /// reached it; during play (and on the way into it) both are below it;
    /// in `Win` exactly one has reached it.
    pub open spec fn wf(self) -> bool {
        &&& is_timed(self.state) <==> self.timer.is_some()
        &&& self.timer.is_some() ==> {
            &&& self.timer.unwrap().wf()
            &&& self.timer.unwrap().duration_ms == duration_of(self.state)
        }
        &&& self.score.left <= GOALS_TO_WIN
        &&& self.score.right <= GOALS_TO_WIN
        &&& (self.state == AppState::NewGame || self.state == AppState::Ready || self.state == AppState::InGame)
            ==> self.score.left < GOALS_TO_WIN && self.score.right < GOALS_TO_WIN
        &&& !(self.score.left >= GOALS_TO_WIN && self.score.right >= GOALS_TO_WIN)
        &&& self.state == AppState::Win ==> is_won(self.score)
    }

    /// The machine at process start: on the title screen, nil all.
    pub fn new() -> (r: Flow)
        ensures
            r.wf(),
            r == (Flow { state: AppState::Title, timer: None, score: Score { left: 0, right: 0 } }),
    {
        Flow { state: AppState::Title, timer: None, score: Score { left: 0, right: 0 } }
    }

    /// Enters `state`, running the state machine's own part of its entry action.
    fn enter(&mut self, state: AppState)
        ensures
            *final(self) == entered(state, old(self).score),
    {
        self.state = state;
        self.timer = match state {
            AppState::Ready => Some(Countdown { duration_ms: READY_DURATION_MS, elapsed_ms: 0 }),
            AppState::Goal => Some(Countdown { duration_ms: GOAL_DURATION_MS, elapsed_ms: 0 }),
            AppState::Win => Some(Countdown { duration_ms: WIN_DURATION_MS, elapsed_ms: 0 }),
            _ => None,
        };
        match state {
            AppState::NewGame => {
                self.score = Score { left: 0, right: 0 };
            },
            _ => {},
        }
    }

    /// Runs the countdown of a timed state for `dt` milliseconds; enters
    /// `next` when it elapses.
    fn countdown(&mut self, dt: u64, next: AppState) -> (r: FlowAction)
        requires
            old(self).wf(),
            is_timed(old(self).state),
        ensures
            (*final(self), r) == countdown_step(*old(self), dt, next),
    {
        match self.timer {
            Some(c) => {
                if dt >= c.duration_ms - c.elapsed_ms {
                    self.enter(next);
                    FlowAction::Enter(next)
                } else {
                    self.timer = Some(Countdown { elapsed_ms: c.elapsed_ms + dt, ..c });
                    FlowAction::Stay
                }
            },
            None => FlowAction::Stay,
        }
    }

    /// Advances the machine by one step of `dt` milliseconds. `start` and
    /// `quit` are the requests released during the step; `goal` is the
    /// scorer of the first goal event of the step, if any.
    pub fn advance(&mut self, dt: u64, start: bool, quit: bool, goal: Option<Player>) -> (r: FlowAction)
        requires
            old(self).wf(),
        ensures
            (*final(self), r) == next_spec(*old(self), dt, start, quit, goal),
            final(self).wf(),
    {
        proof {
            lemma_step_keeps_wf(*self, dt, start, quit, goal);
        }
        match self.state {
            AppState::Title => {
                let r = title_update(start, quit);
                match r {
                    FlowAction::Enter(s) => {
                        self.enter(s);
                    },
                    _ => {},
                }
                r
            },
            AppState::NewGame => {
                self.enter(AppState::Ready);
                FlowAction::Enter(AppState::Ready)
            },
            AppState::Ready => self.countdown(dt, AppState::InGame),
            AppState::InGame => match goal {
                Some(p) => {
                    match p {
                        Player::Left => {
                            self.score.left = self.score.left + 1;
                        },
                        Player::Right => {
                            self.score.right = self.score.right + 1;
                        },
                    }
                    self.enter(AppState::Goal);
                    FlowAction::Enter(AppState::Goal)
                },
                None => FlowAction::Stay,
            },
            AppState::Goal => {
                let next = if self.score.left >= GOALS_TO_WIN || self.score.right >= GOALS_TO_WIN {
                    AppState::Win
                } else {
                    AppState::Ready
                };
                self.countdown(dt, next)
            },
            AppState::Win => self.countdown(dt, AppState::Title),
        }
    }
}

/// The score invariant is kept by every step, whatever its input, and a
/// step changes the total score only by the one point of a goal consumed
/// in play, or by the reset to nil all of a new game.
pub proof fn lemma_step_keeps_wf(f: Flow, dt: u64, start: bool, quit: bool, goal: Option<Player>)
    requires
        f.wf(),
    ensures
        next_spec(f, dt, start, quit, goal).0.wf(),
        ({
            let g = next_spec(f, dt, start, quit, goal).0;
            if f.state == AppState::InGame && goal.is_some() {
                g.score.left + g.score.right == f.score.left + f.score.right + 1
            } else if g.state == AppState::NewGame && f.state != AppState::NewGame {
                g.score == (Score { left: 0, right: 0 })
            } else {
                g.score == f.score
            }
        }),
{
}

/// In `Win`, exactly one player has reached the winning score, so the
/// winner is never a tie.
pub proof fn lemma_win_has_one_winner(f: Flow)
    requires
        f.wf(),
        f.state == AppState::Win,
    ensures
        (f.score.left >= GOALS_TO_WIN) != (f.score.right >= GOALS_TO_WIN),
{
}

/// One step with no input: no request and no goal.
pub open spec fn quiet_step(f: Flow, dt: u64) -> Flow {
    next_spec(f, dt, false, false, None).0
}

/// The machine after `n` quiet steps of `dt` milliseconds each.
pub open spec fn run_quiet(f: Flow, dt: u64, n: nat) -> Flow
    decreases n,
{
    if n == 0 {
        f
    } else {
        run_quiet(quiet_step(f, dt), dt, (n - 1) as nat)
    }
}

/// The states that wait for outside input: the title screen waits for a
/// request, play waits for a goal.
pub open spec fn is_settled(f: Flow) -> bool {
    f.state == AppState::Title || f.state == AppState::InGame
}

/// Steps of `dt` milliseconds needed to run down `ms` milliseconds.
pub open spec fn ticks_for(ms: int, dt: u64) -> int {
    1 + (ms - 1) / (dt as int)
}

/// Quiet steps left before the machine settles.
pub open spec fn ticks_to_settle(f: Flow, dt: u64) -> int {
    match f.state {
        AppState::Title | AppState::InGame => 0,
        AppState::NewGame => 1 + ticks_for(READY_DURATION_MS as int, dt),
        AppState::Ready | AppState::Win => ticks_for(f.timer.unwrap().remaining(), dt),
        AppState::Goal => ticks_for(f.timer.unwrap().remaining(), dt) + ticks_for(
            duration_of(
                if is_won(f.score) {
                    AppState::Win
                } else {
                    AppState::Ready
                },
            ) as int,
            dt,
        ),
    }
}

/// A bound, over all states, on the quiet steps before the machine settles.
pub open spec fn settle_bound(dt: u64) -> int {
    1 + ticks_for(READY_DURATION_MS as int, dt) + ticks_for(GOAL_DURATION_MS as int, dt) + ticks_for(
        WIN_DURATION_MS as int,
        dt,
    )
}

proof fn lemma_ticks_for(ms: int, dt: u64)
    requires
        1 <= ms,
        1 <= dt,
    ensures
        ticks_for(ms, dt) >= 1,
        ms <= dt ==> ticks_for(ms, dt) == 1,
        ms > dt ==> ticks_for(ms - dt, dt) == ticks_for(ms, dt) - 1,
{
    lemma_div_is_ordered(0, ms - 1, dt as int);
    assert(0int / (dt as int) == 0) by {
        lemma_basic_div(0, dt as int);
    }
    if ms <= dt {
        lemma_basic_div(ms - 1, dt as int);
    } else {
        lemma_div_plus_one(ms - dt - 1, dt as int);
    }
}

proof fn lemma_ticks_for_ordered(a: int, b: int, dt: u64)
    requires
        a <= b,
        1 <= dt,
    ensures
        ticks_for(a, dt) <= ticks_for(b, dt),
{
    lemma_div_is_ordered(a - 1, b - 1, dt as int);
}

proof fn lemma_quiet_progress(f: Flow, dt: u64)
    requires
        f.wf(),
        1 <= dt,
        !is_settled(f),
    ensures
        quiet_step(f, dt).wf(),
        ticks_to_settle(quiet_step(f, dt), dt) == ticks_to_settle(f, dt) - 1,
{
    lemma_step_keeps_wf(f, dt, false, false, None);
    if is_timed(f.state) {
        lemma_ticks_for(f.timer.unwrap().remaining(), dt);
    }
}

proof fn lemma_ticks_bounded(f: Flow, dt: u64)
    requires
        f.wf(),
        1 <= dt,
    ensures
        0 <= ticks_to_settle(f, dt) <= settle_bound(dt),
{
    lemma_ticks_for(READY_DURATION_MS as int, dt);
    lemma_ticks_for(GOAL_DURATION_MS as int, dt);
    lemma_ticks_for(WIN_DURATION_MS as int, dt);
    if is_timed(f.state) {
        let c = f.timer.unwrap();
        lemma_ticks_for(c.remaining(), dt);
        lemma_ticks_for_ordered(c.remaining(), c.duration_ms as int, dt);
    }
}

/// A settled machine stays as it is under quiet steps.
pub proof fn lemma_settled_is_stable(f: Flow, dt: u64)
    requires
        f.wf(),
        is_settled(f),
    ensures
        quiet_step(f, dt) == f,
{
}

proof fn lemma_run_quiet_settles(f: Flow, dt: u64, n: nat)
    requires
        f.wf(),
        1 <= dt,
        n >= ticks_to_settle(f, dt),
    ensures
        run_quiet(f, dt, n).wf(),
        is_settled(run_quiet(f, dt, n)),
    decreases n,
{
    if n > 0 {
        if is_settled(f) {
            lemma_settled_is_stable(f, dt);
        } else {
            lemma_quiet_progress(f, dt);
        }
        lemma_run_quiet_settles(quiet_step(f, dt), dt, (n - 1) as nat);
    }
}

/// No livelock: from any state, quiet steps of at least one millisecond
/// reach the title screen or play within `settle_bound(dt)` steps, and the
/// machine then stays where it is.
pub proof fn lemma_quiet_steps_settle(f: Flow, dt: u64, n: nat)
    requires
        f.wf(),
        1 <= dt,
        n >= settle_bound(dt),
    ensures
        is_settled(run_quiet(f, dt, n)),
        quiet_step(run_quiet(f, dt, n), dt) == run_quiet(f, dt, n),
{
    lemma_ticks_bounded(f, dt);
    lemma_run_quiet_settles(f, dt, n);
    lemma_settled_is_stable(run_quiet(f, dt, n), dt);
}

} // verus!
