use cosmic_monitor_positiond::backoff::{backoff_delay_secs, get_backoff_delay, MAX_BACKOFF_SECS};
use std::time::Duration;

#[test]
fn backoff_doubles_for_first_four_attempts() {
    assert_eq!(backoff_delay_secs(0), 2);
    assert_eq!(backoff_delay_secs(1), 4);
    assert_eq!(backoff_delay_secs(2), 8);
    assert_eq!(backoff_delay_secs(3), 16);
}

#[test]
fn backoff_is_capped_at_thirty_seconds() {
    assert_eq!(backoff_delay_secs(4), 30);
    assert_eq!(backoff_delay_secs(29), 30);
    assert_eq!(backoff_delay_secs(usize::MAX), MAX_BACKOFF_SECS);
}

#[test]
fn backoff_delay_as_duration() {
    assert_eq!(get_backoff_delay(0), Duration::from_secs(2));
    assert_eq!(get_backoff_delay(3), Duration::from_secs(16));
    assert_eq!(get_backoff_delay(4), Duration::from_secs(30));
    assert_eq!(get_backoff_delay(1000), Duration::from_secs(30));
}

#[test]
fn backoff_never_shrinks() {
    let mut previous = 0;
    for attempt in 0..64usize {
        let secs = backoff_delay_secs(attempt);
        assert!(secs >= previous);
        assert!(secs >= 2 && secs <= MAX_BACKOFF_SECS);
        previous = secs;
    }
}
