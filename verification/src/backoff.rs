//! Delays between repeated attempts to restore the monitor layout.

use vstd::prelude::*;
use vstd::arithmetic::power2::{pow2, lemma2_to64};
use std::time::Duration;

verus! {

/// Whole seconds of a `Duration`: what `Duration::as_secs` returns.
pub uninterp spec fn duration_whole_secs(d: Duration) -> u64;

/// Sub-second nanoseconds of a `Duration`: what `Duration::subsec_nanos` returns.
pub uninterp spec fn duration_subsec_nanos(d: Duration) -> u32;

/// `Duration::from_secs` builds a duration of exactly `secs` whole seconds and no
/// fractional part, as its documentation says.
pub assume_specification[ core::time::Duration::from_secs ](secs: u64) -> (d: Duration)
    ensures
        duration_whole_secs(d) == secs,
        duration_subsec_nanos(d) == 0,
;

/// The longest pause between two attempts, in seconds.
pub const MAX_BACKOFF_SECS: u64 = 30;

/// Seconds to wait after the attempt numbered `attempt` (counting from zero) failed:
/// 2, 4, 8, 16, then 30 for every later attempt.
pub open spec fn backoff_secs(attempt: nat) -> nat {
    if attempt <= 3 {
        pow2(attempt + 1)
    } else {
        MAX_BACKOFF_SECS as nat
    }
}

/// Seconds of the backoff pause for `attempt`.
pub fn backoff_delay_secs(attempt: usize) -> (secs: u64)
    ensures
        secs == backoff_secs(attempt as nat),
        attempt == 0 ==> secs == 2,
        attempt == 1 ==> secs == 4,
        attempt == 2 ==> secs == 8,
        attempt == 3 ==> secs == 16,
        attempt >= 4 ==> secs == 30,
{
    if attempt <= 3 {
        let shift: u64 = attempt as u64 + 1;
        let secs: u64 = 1u64 << shift;
        proof {
            lemma2_to64();
            if shift == 1 {
                assert(1u64 << 1u64 == 2) by (bit_vector);
            } else if shift == 2 {
                assert(1u64 << 2u64 == 4) by (bit_vector);
            } else if shift == 3 {
                assert(1u64 << 3u64 == 8) by (bit_vector);
            } else {
                assert(1u64 << 4u64 == 16) by (bit_vector);
            }
        }
        secs
    } else {
        MAX_BACKOFF_SECS
    }
}

/// The backoff pause for `attempt` as a `Duration`.
pub fn get_backoff_delay(attempt: usize) -> (delay: Duration)
    ensures
        duration_whole_secs(delay) == backoff_secs(attempt as nat),
        2 <= duration_whole_secs(delay) <= 30,
        attempt == 0 ==> duration_whole_secs(delay) == 2,
        attempt == 1 ==> duration_whole_secs(delay) == 4,
        attempt == 2 ==> duration_whole_secs(delay) == 8,
        attempt == 3 ==> duration_whole_secs(delay) == 16,
        attempt >= 4 ==> duration_whole_secs(delay) == 30,
        duration_subsec_nanos(delay) == 0,
{
    let seconds = backoff_delay_secs(attempt);
    proof {
        lemma2_to64();
    }
    Duration::from_secs(seconds)
}

/// The pauses grow with the attempt number, start at two seconds and never exceed
/// `MAX_BACKOFF_SECS`.
pub proof fn lemma_backoff_grows_and_is_capped(a: nat, b: nat)
    requires
        a <= b,
    ensures
        2 <= backoff_secs(a),
        backoff_secs(a) <= backoff_secs(b),
        backoff_secs(b) <= MAX_BACKOFF_SECS,
{
    lemma2_to64();
}

/// The pause after each attempt, in seconds: 2, 4, 8, 16 for the first four attempts
/// and 30 for every later one.
pub proof fn lemma_backoff_values(attempt: nat)
    ensures
        attempt == 0 ==> backoff_secs(attempt) == 2,
        attempt == 1 ==> backoff_secs(attempt) == 4,
        attempt == 2 ==> backoff_secs(attempt) == 8,
        attempt == 3 ==> backoff_secs(attempt) == 16,
        attempt >= 4 ==> backoff_secs(attempt) == 30,
        2 <= backoff_secs(attempt) <= 30,
{
    lemma2_to64();
}

} // verus!
