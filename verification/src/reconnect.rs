//! The reconnection schedule: up to five attempts, with a delay that
//! doubles from one second and never exceeds thirty.

use vstd::arithmetic::power2::lemma2_to64;
use vstd::arithmetic::power2::lemma_pow2_strictly_increases;
use vstd::arithmetic::power2::pow2;
use vstd::prelude::*;

verus! {

/// Largest number of reconnection attempts after a read error.
pub const MAX_RECONNECT_ATTEMPTS: u32 = 5;

/// Longest delay before a reconnection attempt, in seconds.
pub const MAX_BACKOFF_SECS: u64 = 30;

/// The delay before attempt `attempt`, counted from 1:
/// `min(2^(attempt - 1), 30)` seconds.
pub open spec fn backoff_secs(attempt: u32) -> u64 {
    if pow2((attempt - 1) as nat) < MAX_BACKOFF_SECS {
        pow2((attempt - 1) as nat) as u64
    } else {
        MAX_BACKOFF_SECS
    }
}

/// The delay in seconds before a reconnection attempt.
pub fn backoff_delay(attempt: u32) -> (delay_secs: u64)
    requires
        attempt >= 1,
    ensures
        delay_secs == backoff_secs(attempt),
{
    proof {
        lemma2_to64();
        if attempt > 6 {
            lemma_pow2_strictly_increases(5, (attempt - 1) as nat);
        }
    }
    if attempt == 1 {
        1
    } else if attempt == 2 {
        2
    } else if attempt == 3 {
        4
    } else if attempt == 4 {
        8
    } else if attempt == 5 {
        16
    } else {
        MAX_BACKOFF_SECS
    }
}

/// What to do after a number of failed attempts.
#[derive(Debug, Clone, Copy, PartialEq, Eq, Structural)]
pub enum ReconnectStep {
    /// Announce the attempt, wait `delay_secs`, then try to connect.
    Attempt { attempt: u32, delay_secs: u64 },
    /// All attempts failed.
    GiveUp,
}

/// The step that follows `failed` failed attempts.
pub open spec fn reconnect_step(failed: u32) -> ReconnectStep {
    if failed < MAX_RECONNECT_ATTEMPTS {
        ReconnectStep::Attempt {
            attempt: (failed + 1) as u32,
            delay_secs: backoff_secs((failed + 1) as u32),
        }
    } else {
        ReconnectStep::GiveUp
    }
}

/// The step that follows `failed` failed attempts.
pub fn next_reconnect_step(failed: u32) -> (step: ReconnectStep)
    ensures
        step == reconnect_step(failed),
{
    if failed < MAX_RECONNECT_ATTEMPTS {
        ReconnectStep::Attempt { attempt: failed + 1, delay_secs: backoff_delay(failed + 1) }
    } else {
        ReconnectStep::GiveUp
    }
}

/// Reconnect backoff. The five attempts wait 1, 2, 4, 8 and 16 seconds, and
/// no attempt, however late, waits longer than 30.
pub proof fn lemma_backoff_schedule()
    ensures
        backoff_secs(1) == 1,
        backoff_secs(2) == 2,
        backoff_secs(3) == 4,
        backoff_secs(4) == 8,
        backoff_secs(5) == 16,
        forall|attempt: u32| attempt >= 1 ==> 1 <= #[trigger] backoff_secs(attempt) <= 30,
        forall|failed: u32|
            failed < 5 ==> #[trigger] reconnect_step(failed) == (ReconnectStep::Attempt {
                attempt: (failed + 1) as u32,
                delay_secs: backoff_secs((failed + 1) as u32),
            }),
        forall|failed: u32| failed >= 5 ==> #[trigger] reconnect_step(failed) == ReconnectStep::GiveUp,
{
    lemma2_to64();
    assert forall|attempt: u32| attempt >= 1 implies 1 <= #[trigger] backoff_secs(attempt)
        <= 30 by {
        vstd::arithmetic::power2::lemma_pow2_pos((attempt - 1) as nat);
    }
}

} // verus!
