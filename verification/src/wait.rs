//! How the caller waits until files are ready.
//!
//! Each [`WaitAction`] says what is to be done next, and [`wait_step`] takes what came of it.

use vstd::prelude::*;

verus! {

/// How many milliseconds to wait if it is not known when the next transfer is due.
pub const DEFAULT_WAIT_MILLIS: u64 = 1000;

/// What is to be done next while the caller waits.
#[derive(Clone, Copy, PartialEq, Eq, Structural, Debug)]
pub enum WaitAction {
    /// Handle the transfers that ended.
    Collect,
    /// Continue the other transfers.
    Perform,
    /// Look up when the next transfer is due.
    ReadTimeout,
    /// Wait for news of the transfers, for so many milliseconds at most.
    Wait { millis: u64 },
    /// Nothing: the caller need not wait any longer.
    Done,
}

/// What was done while the caller waits.
#[derive(Clone, Copy, PartialEq, Eq, Structural, Debug)]
pub enum WaitEvent {
    /// The transfers that ended were handled.
    Collected,
    /// The other transfers were continued, and so many are left.
    Performed { remaining: u32 },
    /// The next transfer is due in so many milliseconds, if that is known.
    TimeoutRead { millis: Option<u64> },
    /// There is news, or the time is up.
    Waited,
}

/// What is to be done after `event`.
pub open spec fn wait_next(event: WaitEvent) -> WaitAction {
    match event {
        WaitEvent::Collected => WaitAction::Perform,
        WaitEvent::Performed { remaining } => if remaining == 0 {
            WaitAction::Done
        } else {
            WaitAction::ReadTimeout
        },
        WaitEvent::TimeoutRead { millis } => WaitAction::Wait {
            millis: match millis {
                Some(millis) => millis,
                None => DEFAULT_WAIT_MILLIS,
            },
        },
        WaitEvent::Waited => WaitAction::Collect,
    }
}

/// What is to be done after `event`.
pub fn wait_step(event: WaitEvent) -> (action: WaitAction)
    ensures
        action == wait_next(event),
{
    match event {
        WaitEvent::Collected => WaitAction::Perform,
        WaitEvent::Performed { remaining } => {
            if remaining == 0 {
                WaitAction::Done
            } else {
                // There are no more files for the caller, so wait until there is something new.
                WaitAction::ReadTimeout
            }
        },
        WaitEvent::TimeoutRead { millis } => WaitAction::Wait {
            millis: millis.unwrap_or(DEFAULT_WAIT_MILLIS),
        },
        WaitEvent::Waited => WaitAction::Collect,
    }
}

} // verus!
