//! The idle backoff policy: how long the loop should wait before its next
//! poll, as a function of how many consecutive cycles did no useful work.
//!
//! The curve is a policy of this crate, not part of the loop's core contract:
//! a capped linear ramp, no wait while work is flowing, one step of 100 ms per
//! fruitless cycle, capped at one second. The core contract is only that the
//! delay is minimal at zero attempts and never shrinks as attempts grow.

use vstd::prelude::*;

verus! {

/// Milliseconds of idle delay requested after `attempts` fruitless cycles.
pub open spec fn backoff_ms_spec(attempts: u32) -> u64 {
    if attempts >= 10 {
        1000u64
    } else {
        ((attempts as u64) * 100) as u64
    }
}

/// Compute the idle delay for the given attempt count.
pub fn backoff_ms(attempts: u32) -> (ms: u64)
    ensures
        ms == backoff_ms_spec(attempts),
{
    if attempts >= 10 {
        1000
    } else {
        (attempts as u64) * 100
    }
}

/// The delay never shrinks as the attempt count grows, and an idle-free loop
/// waits not at all.
pub proof fn lemma_backoff_monotone(a: u32, b: u32)
    requires
        a <= b,
    ensures
        backoff_ms_spec(a) <= backoff_ms_spec(b),
        backoff_ms_spec(0) == 0,
{
}

} // verus!
