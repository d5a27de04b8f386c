//! The turn state machine.

use vstd::prelude::*;

use crate::protocol::TurnStatus;

verus! {

/// The legal turn transitions that follow a runner's claim, its output and
/// its report, and the retry of a capped turn.
pub open spec fn legal(from: TurnStatus, to: TurnStatus) -> bool {
    match from {
        TurnStatus::Queued => to == TurnStatus::Claimed,
        TurnStatus::Claimed => to == TurnStatus::Working || to == TurnStatus::Done || to
            == TurnStatus::Error || to == TurnStatus::Cancelled,
        TurnStatus::Working => to == TurnStatus::Done || to == TurnStatus::Error || to
            == TurnStatus::Capped || to == TurnStatus::Cancelled,
        TurnStatus::Capped => to == TurnStatus::Queued,
        _ => false,
    }
}

/// A turn that some runner is playing.
pub open spec fn is_held(status: TurnStatus) -> bool {
    status == TurnStatus::Claimed || status == TurnStatus::Working
}

/// A turn that will not change again.
pub open spec fn is_terminal(status: TurnStatus) -> bool {
    status == TurnStatus::Done || status == TurnStatus::Error || status == TurnStatus::Cancelled
}

/// The moves the caller makes on its own: a queued turn is cancelled, and a
/// turn whose runner lost it goes back on the queue.
pub open spec fn caller_move(from: TurnStatus, to: TurnStatus) -> bool {
    ||| from == TurnStatus::Queued && to == TurnStatus::Cancelled
    ||| is_held(from) && to == TurnStatus::Queued
}

/// Whether a turn may go from one status to another.
pub fn transition_allowed(from: TurnStatus, to: TurnStatus) -> (allowed: bool)
    ensures
        allowed == legal(from, to),
{
    match (from, to) {
        (TurnStatus::Queued, TurnStatus::Claimed) => true,
        (TurnStatus::Claimed, TurnStatus::Working) => true,
        (TurnStatus::Claimed, TurnStatus::Done) => true,
        (TurnStatus::Claimed, TurnStatus::Error) => true,
        (TurnStatus::Claimed, TurnStatus::Cancelled) => true,
        (TurnStatus::Working, TurnStatus::Done) => true,
        (TurnStatus::Working, TurnStatus::Error) => true,
        (TurnStatus::Working, TurnStatus::Capped) => true,
        (TurnStatus::Working, TurnStatus::Cancelled) => true,
        (TurnStatus::Capped, TurnStatus::Queued) => true,
        _ => false,
    }
}

/// Whether some runner is playing a turn of this status.
pub fn held(status: TurnStatus) -> (yes: bool)
    ensures
        yes == is_held(status),
{
    match status {
        TurnStatus::Claimed | TurnStatus::Working => true,
        _ => false,
    }
}

/// Done, error and cancelled are terminal: neither a report nor the caller
/// itself moves a turn out of them.
pub proof fn finished_turns_never_move(from: TurnStatus, to: TurnStatus)
    requires
        is_terminal(from),
    ensures
        !legal(from, to),
        !caller_move(from, to),
{
}

/// No transition stays where it is.
pub proof fn transitions_change_the_status(from: TurnStatus, to: TurnStatus)
    requires
        legal(from, to) || caller_move(from, to),
    ensures
        from != to,
{
}

} // verus!
