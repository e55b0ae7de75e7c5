//! The input-seizure retry policy: exclusive keyboard and pointer control
//! is acquired together, with a bounded number of attempts and a fixed
//! delay between them. The policy is a pure step function; the caller makes
//! the grab requests and sleeps.

use vstd::prelude::*;

verus! {

/// How many grab attempts are made before the session gives up.
pub const GRAB_ATTEMPTS: u32 = 6;

/// Milliseconds between two grab attempts.
pub const GRAB_DELAY_MS: u64 = 100;

/// What to do after one grab attempt.
#[derive(Clone, Copy, PartialEq, Eq, Structural, Debug)]
pub enum GrabStep {
    /// Keyboard and pointer are both held: input is seized.
    Acquired,
    /// The attempt failed and attempts remain: wait the fixed delay and
    /// try again.
    Retry,
    /// The attempt failed and the budget is spent: the session must not
    /// proceed, the lock cannot be made secure.
    Fail,
}

/// Decides what follows the grab attempt numbered `attempt` (counted from
/// zero): seizure succeeds only when keyboard and pointer grabs both
/// succeed, and a failed attempt is retried only while attempts remain.
pub fn grab_step(attempt: u32, keyboard_ok: bool, pointer_ok: bool, max_attempts: u32) -> (r:
    GrabStep)
    requires
        attempt < max_attempts,
    ensures
        r == GrabStep::Acquired <==> keyboard_ok && pointer_ok,
        r == GrabStep::Retry <==> !(keyboard_ok && pointer_ok) && attempt + 1 < max_attempts,
        r == GrabStep::Fail <==> !(keyboard_ok && pointer_ok) && attempt + 1 == max_attempts,
{
    if keyboard_ok && pointer_ok {
        GrabStep::Acquired
    } else if attempt + 1 < max_attempts {
        GrabStep::Retry
    } else {
        GrabStep::Fail
    }
}

} // verus!
