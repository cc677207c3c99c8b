//! The decisions of the repositioning task: when to try to restore the saved
//! layout, how long to wait after a failed try, and when to give up.
//!
//! The task reacts to four kinds of event: a request to reposition (the session
//! resumed or a display was plugged in), its timer firing, the outcome of an
//! attempt, and an interrupt. `RepositionState::step` maps the current state and
//! an event to the next state and the one thing the task must do next.

use vstd::prelude::*;
use std::time::Duration;
use crate::backoff::{backoff_secs, backoff_delay_secs, duration_whole_secs, duration_subsec_nanos};

verus! {

/// How many attempts follow one reposition request before the task gives up.
pub const MAX_ATTEMPTS: usize = 30;

/// A delay long enough to mean "not again until something asks": ten years, in seconds.
pub const FOREVER_FROM_NOW_SECS: u64 = 365 * 24 * 60 * 60 * 10;

/// What the task is told happened.
#[derive(Clone, Copy, Debug, PartialEq, Eq, Structural)]
pub enum RepositionEvent {
    /// The session resumed or a display was plugged in (requests already queued behind
    /// this one count as the same request).
    RepositionRequested,
    /// The timer armed by the last `ResetTimer` action fired.
    TimerFired,
    /// The attempt started by the last `Attempt` action placed every monitor.
    AttemptSucceeded,
    /// The attempt started by the last `Attempt` action did not.
    AttemptFailed,
    /// The process was asked to stop (Ctrl-C).
    Interrupted,
}

/// When the timer should fire next, counted from now.
#[derive(Clone, Copy, Debug, PartialEq, Eq, Structural)]
pub enum TimerDelay {
    Immediately,
    /// The backoff pause that follows the failure of attempt number `attempt`
    /// (counting from zero).
    Backoff { attempt: usize },
    /// Ten years: in effect, only a new request wakes the task.
    Forever,
}

/// What the task must do next.
#[derive(Clone, Copy, Debug, PartialEq, Eq, Structural)]
pub enum RepositionAction {
    /// Arm the timer with this delay, then wait for the next event.
    ResetTimer { delay: TimerDelay },
    /// Make attempt number `attempt` (counting from one) and report its outcome.
    /// With `park_timer`, first arm the timer with `TimerDelay::Forever`: the attempt
    /// limit has been passed.
    Attempt { attempt: usize, park_timer: bool },
    /// Leave the task. With `gave_up`, the attempt limit ran out without success and the
    /// task ends with an error; otherwise it ends normally.
    Exit { gave_up: bool },
}

/// The task's memory between events: the number of attempts since the last success
/// or reposition request.
#[derive(Clone, Copy, Debug, PartialEq, Eq, Structural)]
pub struct RepositionState {
    pub attempt_counter: usize,
}

impl TimerDelay {
    /// The delay in seconds.
    pub open spec fn secs(self) -> nat {
        match self {
            TimerDelay::Immediately => 0,
            TimerDelay::Backoff { attempt } => backoff_secs(attempt as nat),
            TimerDelay::Forever => FOREVER_FROM_NOW_SECS as nat,
        }
    }

    /// The delay as a `Duration`.
    pub fn to_duration(&self) -> (d: Duration)
        ensures
            duration_whole_secs(d) == self.secs(),
            duration_subsec_nanos(d) == 0,
            *self == TimerDelay::Immediately ==> duration_whole_secs(d) == 0,
            *self == TimerDelay::Forever ==> duration_whole_secs(d) == 315_360_000,
            self matches TimerDelay::Backoff { attempt } ==> {
                &&& 2 <= duration_whole_secs(d) <= 30
                &&& attempt == 0 ==> duration_whole_secs(d) == 2
                &&& attempt == 1 ==> duration_whole_secs(d) == 4
                &&& attempt == 2 ==> duration_whole_secs(d) == 8
                &&& attempt == 3 ==> duration_whole_secs(d) == 16
                &&& attempt >= 4 ==> duration_whole_secs(d) == 30
            },
    {
        proof {
            vstd::arithmetic::power2::lemma2_to64();
        }
        match self {
            TimerDelay::Immediately => Duration::from_secs(0),
            TimerDelay::Backoff { attempt } => Duration::from_secs(backoff_delay_secs(*attempt)),
            TimerDelay::Forever => Duration::from_secs(FOREVER_FROM_NOW_SECS),
        }
    }
}

/// The transition of the repositioning task on one event.
pub open spec fn spec_step(s: RepositionState, e: RepositionEvent) -> (RepositionState, RepositionAction) {
    match e {
        RepositionEvent::RepositionRequested => (
            RepositionState { attempt_counter: 0 },
            RepositionAction::ResetTimer { delay: TimerDelay::Immediately },
        ),
        RepositionEvent::TimerFired => {
            let n = (s.attempt_counter + 1) as usize;
            (
                RepositionState { attempt_counter: n },
                RepositionAction::Attempt { attempt: n, park_timer: n > MAX_ATTEMPTS },
            )
        },
        RepositionEvent::AttemptSucceeded => (
            RepositionState { attempt_counter: 0 },
            RepositionAction::ResetTimer { delay: TimerDelay::Forever },
        ),
        RepositionEvent::AttemptFailed => {
            if s.attempt_counter >= MAX_ATTEMPTS {
                (s, RepositionAction::Exit { gave_up: true })
            } else {
                let prior = if s.attempt_counter >= 1 { s.attempt_counter - 1 } else { 0 };
                (s, RepositionAction::ResetTimer { delay: TimerDelay::Backoff { attempt: prior as usize } })
            }
        },
        RepositionEvent::Interrupted => (s, RepositionAction::Exit { gave_up: false }),
    }
}

impl RepositionState {
    /// The state the task starts in, and its first action: try at once.
    pub fn start() -> (res: (RepositionState, RepositionAction))
        ensures
            res.0.attempt_counter == 0,
            res.1 == (RepositionAction::ResetTimer { delay: TimerDelay::Immediately }),
    {
        (RepositionState { attempt_counter: 0 }, RepositionAction::ResetTimer { delay: TimerDelay::Immediately })
    }

    /// Takes one event: updates the state and returns the next action.
    pub fn step(&mut self, event: RepositionEvent) -> (action: RepositionAction)
        requires
            event == RepositionEvent::TimerFired ==> old(self).attempt_counter < usize::MAX,
        ensures
            (*final(self), action) == spec_step(*old(self), event),
            event == RepositionEvent::RepositionRequested ==> final(self).attempt_counter == 0
                && action == (RepositionAction::ResetTimer { delay: TimerDelay::Immediately }),
            event == RepositionEvent::TimerFired ==> final(self).attempt_counter == old(self).attempt_counter + 1
                && action == (RepositionAction::Attempt {
                    attempt: (old(self).attempt_counter + 1) as usize,
                    park_timer: old(self).attempt_counter + 1 > 30,
                }),
            event == RepositionEvent::AttemptSucceeded ==> final(self).attempt_counter == 0
                && action == (RepositionAction::ResetTimer { delay: TimerDelay::Forever }),
            event == RepositionEvent::AttemptFailed ==> final(self).attempt_counter == old(self).attempt_counter,
            event == RepositionEvent::AttemptFailed && old(self).attempt_counter >= 30
                ==> action == (RepositionAction::Exit { gave_up: true }),
            event == RepositionEvent::AttemptFailed && 1 <= old(self).attempt_counter < 30
                ==> action == (RepositionAction::ResetTimer {
                    delay: TimerDelay::Backoff { attempt: (old(self).attempt_counter - 1) as usize },
                }),
            event == RepositionEvent::AttemptFailed && old(self).attempt_counter == 0
                ==> action == (RepositionAction::ResetTimer { delay: TimerDelay::Backoff { attempt: 0 } }),
            event == RepositionEvent::Interrupted ==> final(self).attempt_counter == old(self).attempt_counter
                && action == (RepositionAction::Exit { gave_up: false }),
    {
        match event {
            RepositionEvent::RepositionRequested => {
                self.attempt_counter = 0;
                RepositionAction::ResetTimer { delay: TimerDelay::Immediately }
            },
            RepositionEvent::TimerFired => {
                self.attempt_counter = self.attempt_counter + 1;
                RepositionAction::Attempt {
                    attempt: self.attempt_counter,
                    park_timer: self.attempt_counter > MAX_ATTEMPTS,
                }
            },
            RepositionEvent::AttemptSucceeded => {
                self.attempt_counter = 0;
                RepositionAction::ResetTimer { delay: TimerDelay::Forever }
            },
            RepositionEvent::AttemptFailed => {
                if self.attempt_counter >= MAX_ATTEMPTS {
                    RepositionAction::Exit { gave_up: true }
                } else {
                    let prior = if self.attempt_counter >= 1 { self.attempt_counter - 1 } else { 0 };
                    RepositionAction::ResetTimer { delay: TimerDelay::Backoff { attempt: prior } }
                }
            },
            RepositionEvent::Interrupted => RepositionAction::Exit { gave_up: false },
        }
    }
}

/// The message with which the task ends when it gives up.
pub fn give_up_message() -> (msg: String)
    ensures
        msg@ == "Maximum attempts (30) reached without success"@,
{
    String::from_str("Maximum attempts (30) reached without success")
}

/// What one round ends with: the timer fires, and the attempt it starts fails.
pub open spec fn failed_round(s: RepositionState) -> (RepositionState, RepositionAction) {
    spec_step(spec_step(s, RepositionEvent::TimerFired).0, RepositionEvent::AttemptFailed)
}

/// The state after `k` failed rounds that follow a reposition request (or the start).
pub open spec fn after_failed_rounds(k: nat) -> RepositionState
    decreases k,
{
    if k == 0 {
        RepositionState { attempt_counter: 0 }
    } else {
        failed_round(after_failed_rounds((k - 1) as nat)).0
    }
}

/// Below the limit, a timer firing starts the next attempt without parking the timer,
/// and once the attempt reports its outcome the task has either ended with an error or
/// is below the limit again: under the protocol of the task no attempt past
/// `MAX_ATTEMPTS` is ever started.
pub proof fn lemma_round_stays_within_limit(s: RepositionState, outcome: RepositionEvent)
    requires
        s.attempt_counter < MAX_ATTEMPTS,
        outcome == RepositionEvent::AttemptSucceeded || outcome == RepositionEvent::AttemptFailed,
    ensures
        spec_step(s, RepositionEvent::TimerFired).1 == (RepositionAction::Attempt {
            attempt: (s.attempt_counter + 1) as usize,
            park_timer: false,
        }),
        spec_step(s, RepositionEvent::TimerFired).0.attempt_counter <= MAX_ATTEMPTS,
        spec_step(spec_step(s, RepositionEvent::TimerFired).0, outcome).1 == (RepositionAction::Exit { gave_up: true })
            || spec_step(spec_step(s, RepositionEvent::TimerFired).0, outcome).0.attempt_counter < MAX_ATTEMPTS,
{
}

/// After a request, the `k`-th consecutive failure waits the backoff of attempt `k - 1`
/// before the next try, and the task gives up exactly at the `MAX_ATTEMPTS`-th failure.
pub proof fn lemma_gives_up_after_max_failures(k: nat)
    requires
        1 <= k <= MAX_ATTEMPTS,
    ensures
        after_failed_rounds(k).attempt_counter == k,
        failed_round(after_failed_rounds((k - 1) as nat)).1 == (if k < MAX_ATTEMPTS {
            RepositionAction::ResetTimer { delay: TimerDelay::Backoff { attempt: (k - 1) as usize } }
        } else {
            RepositionAction::Exit { gave_up: true }
        }),
    decreases k,
{
    if k > 1 {
        lemma_gives_up_after_max_failures((k - 1) as nat);
    }
}

/// From any state, a reposition request forgets earlier attempts and tries at once.
pub proof fn lemma_request_tries_at_once(s: RepositionState)
    ensures
        spec_step(s, RepositionEvent::RepositionRequested).0.attempt_counter == 0,
        spec_step(s, RepositionEvent::RepositionRequested).1
            == (RepositionAction::ResetTimer { delay: TimerDelay::Immediately }),
        TimerDelay::Immediately.secs() == 0,
{
}

/// From any state, a success forgets earlier attempts and parks the timer for ten
/// years, so that only a new request leads to another attempt.
pub proof fn lemma_success_parks_timer(s: RepositionState)
    ensures
        spec_step(s, RepositionEvent::AttemptSucceeded).0.attempt_counter == 0,
        spec_step(s, RepositionEvent::AttemptSucceeded).1
            == (RepositionAction::ResetTimer { delay: TimerDelay::Forever }),
        TimerDelay::Forever.secs() == 10 * 365 * 24 * 3600,
{
}

/// A firing timer starts the next attempt, numbered one more than those made so far.
pub proof fn lemma_timer_starts_next_attempt(s: RepositionState)
    requires
        s.attempt_counter < usize::MAX,
    ensures
        spec_step(s, RepositionEvent::TimerFired).0.attempt_counter == s.attempt_counter + 1,
        spec_step(s, RepositionEvent::TimerFired).1 == (RepositionAction::Attempt {
            attempt: (s.attempt_counter + 1) as usize,
            park_timer: s.attempt_counter >= 30,
        }),
{
}

/// A failure keeps the count; at 30 attempts or more the task gives up, below that it
/// waits the backoff of the previous attempt: between 2 and 30 seconds.
pub proof fn lemma_failure_waits_or_gives_up(s: RepositionState)
    ensures
        spec_step(s, RepositionEvent::AttemptFailed).0 == s,
        s.attempt_counter >= 30 ==> spec_step(s, RepositionEvent::AttemptFailed).1 == (RepositionAction::Exit { gave_up: true }),
        s.attempt_counter < 30 ==> spec_step(s, RepositionEvent::AttemptFailed).1 == (RepositionAction::ResetTimer {
            delay: TimerDelay::Backoff { attempt: (if s.attempt_counter == 0 { 0 } else { s.attempt_counter - 1 }) as usize },
        }),
        s.attempt_counter < 30 ==> 2 <= (TimerDelay::Backoff {
            attempt: (if s.attempt_counter == 0 { 0 } else { s.attempt_counter - 1 }) as usize,
        }).secs() <= 30,
{
    crate::backoff::lemma_backoff_values((if s.attempt_counter == 0 { 0 } else { s.attempt_counter - 1 }) as nat);
}

/// An interrupt ends the task normally and keeps the count.
pub proof fn lemma_interrupt_exits_normally(s: RepositionState)
    ensures
        spec_step(s, RepositionEvent::Interrupted) == (s, RepositionAction::Exit { gave_up: false }),
{
}

/// The pause of every backoff delay: 2, 4, 8, 16 seconds after the first four attempts,
/// 30 after every later one.
pub proof fn lemma_backoff_delay_lasts(attempt: usize)
    ensures
        attempt == 0 ==> (TimerDelay::Backoff { attempt }).secs() == 2,
        attempt == 1 ==> (TimerDelay::Backoff { attempt }).secs() == 4,
        attempt == 2 ==> (TimerDelay::Backoff { attempt }).secs() == 8,
        attempt == 3 ==> (TimerDelay::Backoff { attempt }).secs() == 16,
        attempt >= 4 ==> (TimerDelay::Backoff { attempt }).secs() == 30,
        2 <= (TimerDelay::Backoff { attempt }).secs() <= 30,
{
    crate::backoff::lemma_backoff_values(attempt as nat);
}

} // verus!
