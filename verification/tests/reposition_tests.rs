use cosmic_monitor_positiond::reposition::{
    give_up_message, RepositionAction, RepositionEvent, RepositionState, TimerDelay,
    FOREVER_FROM_NOW_SECS, MAX_ATTEMPTS,
};
use std::time::Duration;

#[test]
fn starts_by_trying_at_once() {
    let (state, action) = RepositionState::start();
    assert_eq!(state.attempt_counter, 0);
    assert_eq!(action, RepositionAction::ResetTimer { delay: TimerDelay::Immediately });
}

#[test]
fn timer_starts_numbered_attempt() {
    let (mut state, _) = RepositionState::start();
    let action = state.step(RepositionEvent::TimerFired);
    assert_eq!(action, RepositionAction::Attempt { attempt: 1, park_timer: false });
    assert_eq!(state.attempt_counter, 1);
}

#[test]
fn success_resets_counter_and_parks_timer() {
    let mut state = RepositionState { attempt_counter: 7 };
    let action = state.step(RepositionEvent::AttemptSucceeded);
    assert_eq!(state.attempt_counter, 0);
    assert_eq!(action, RepositionAction::ResetTimer { delay: TimerDelay::Forever });
}

#[test]
fn failure_waits_backoff_of_previous_attempt() {
    let mut state = RepositionState { attempt_counter: 1 };
    assert_eq!(
        state.step(RepositionEvent::AttemptFailed),
        RepositionAction::ResetTimer { delay: TimerDelay::Backoff { attempt: 0 } }
    );
    let mut state = RepositionState { attempt_counter: 5 };
    assert_eq!(
        state.step(RepositionEvent::AttemptFailed),
        RepositionAction::ResetTimer { delay: TimerDelay::Backoff { attempt: 4 } }
    );
    assert_eq!(state.attempt_counter, 5);
}

#[test]
fn failure_with_zero_counter_uses_first_backoff() {
    let mut state = RepositionState { attempt_counter: 0 };
    assert_eq!(
        state.step(RepositionEvent::AttemptFailed),
        RepositionAction::ResetTimer { delay: TimerDelay::Backoff { attempt: 0 } }
    );
}

#[test]
fn request_restarts_attempts() {
    let mut state = RepositionState { attempt_counter: 12 };
    let action = state.step(RepositionEvent::RepositionRequested);
    assert_eq!(state.attempt_counter, 0);
    assert_eq!(action, RepositionAction::ResetTimer { delay: TimerDelay::Immediately });
}

#[test]
fn interrupt_exits_normally() {
    let mut state = RepositionState { attempt_counter: 3 };
    assert_eq!(state.step(RepositionEvent::Interrupted), RepositionAction::Exit { gave_up: false });
}

#[test]
fn gives_up_after_max_consecutive_failures() {
    let (mut state, _) = RepositionState::start();
    let mut attempts = 0;
    loop {
        match state.step(RepositionEvent::TimerFired) {
            RepositionAction::Attempt { attempt, park_timer } => {
                assert!(!park_timer);
                attempts += 1;
                assert_eq!(attempt, attempts);
            }
            other => panic!("unexpected action {:?}", other),
        }
        match state.step(RepositionEvent::AttemptFailed) {
            RepositionAction::ResetTimer { delay: TimerDelay::Backoff { attempt } } => {
                assert_eq!(attempt, attempts - 1);
            }
            RepositionAction::Exit { gave_up } => {
                assert!(gave_up);
                break;
            }
            other => panic!("unexpected action {:?}", other),
        }
    }
    assert_eq!(attempts, MAX_ATTEMPTS);
}

#[test]
fn attempt_past_the_limit_parks_timer() {
    let mut state = RepositionState { attempt_counter: MAX_ATTEMPTS };
    assert_eq!(
        state.step(RepositionEvent::TimerFired),
        RepositionAction::Attempt { attempt: MAX_ATTEMPTS + 1, park_timer: true }
    );
}

#[test]
fn timer_delays_as_durations() {
    assert_eq!(TimerDelay::Immediately.to_duration(), Duration::from_secs(0));
    assert_eq!(TimerDelay::Backoff { attempt: 2 }.to_duration(), Duration::from_secs(8));
    assert_eq!(TimerDelay::Forever.to_duration(), Duration::from_secs(FOREVER_FROM_NOW_SECS));
    assert_eq!(FOREVER_FROM_NOW_SECS, 315_360_000);
}

#[test]
fn give_up_message_text() {
    assert_eq!(give_up_message(), "Maximum attempts (30) reached without success");
}
