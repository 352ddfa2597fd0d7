//! The one retry of the channel: a client whose connection attempt fails
//! waits a fixed, short time and tries again, for as long as it takes.  A
//! connection that drops later is never re-established.

use vstd::prelude::*;

verus! {

/// The pause between two connection attempts, in milliseconds.
pub const RETRY_DELAY_MILLIS: u64 = 100;

/// What follows a connection attempt.
#[derive(Debug, Clone, Copy, PartialEq, Eq, Structural)]
pub enum ConnectStep {
    /// The connection stands.
    Established,
    /// Wait, then attempt again.
    RetryAfter { millis: u64 },
}

/// Decides what follows a connection attempt.  Success ends the waiting.
/// A failure is never an error and never the last one: whatever came before,
/// it costs the same pause and leads to another attempt.
pub fn after_connect_attempt(connected: bool) -> (step: ConnectStep)
    ensures
        connected ==> step == ConnectStep::Established,
        !connected ==> step == (ConnectStep::RetryAfter { millis: RETRY_DELAY_MILLIS }),
{
    if connected {
        ConnectStep::Established
    } else {
        ConnectStep::RetryAfter { millis: RETRY_DELAY_MILLIS }
    }
}

} // verus!
