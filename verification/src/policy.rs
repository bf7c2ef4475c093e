//! The per-tick decisions of the control loop.
//!
//! Each tick starts from a fresh read of the device file and the
//! target brightness computed from the clock. The decision is pure:
//! the surrounding binary performs the chosen action (write, sleep,
//! terminate) and comes back with the outcome of the write, which is
//! judged by the same fatal/transient policy.

use vstd::prelude::*;

use crate::error::{is_fatal, spec_is_fatal, RpiError};

verus! {

/// Seconds slept after a tick that ran through without a retry.
pub const IDLE_SLEEP_SECS: u64 = 1;

/// Seconds slept before the next attempt after a transient error.
pub const RETRY_SLEEP_SECS: u64 = 3;

/// What the control loop does with the rest of a tick.
#[derive(Clone, Copy, Debug, PartialEq, Eq, Structural)]
pub enum TickAction {
    /// A fatal error: report it and terminate the process.
    Abort,
    /// A transient error: sleep `RETRY_SLEEP_SECS`, then restart the
    /// tick from a fresh read.
    Backoff,
    /// Nothing to do: sleep `IDLE_SLEEP_SECS` before the next tick.
    Idle,
    /// Write the carried target brightness, then report the change.
    Write(u8),
}

/// The decision after the read step of a tick: a failed read is
/// judged by the error policy, an unchanged value asks for no write,
/// and a changed one asks for the target to be written.
pub open spec fn spec_plan_tick(read: Result<u8, RpiError>, target: u8) -> TickAction {
    match read {
        Ok(current) => if current == target {
            TickAction::Idle
        } else {
            TickAction::Write(target)
        },
        Err(e) => if spec_is_fatal(e) {
            TickAction::Abort
        } else {
            TickAction::Backoff
        },
    }
}

/// The decision after the write step: success moves on to the idle
/// sleep (after the change is reported); a failed write is judged by
/// the error policy.
pub open spec fn spec_plan_after_write(wrote: Result<(), RpiError>) -> TickAction {
    match wrote {
        Ok(_) => TickAction::Idle,
        Err(e) => if spec_is_fatal(e) {
            TickAction::Abort
        } else {
            TickAction::Backoff
        },
    }
}

/// Decides a tick from a fresh read and the computed target, exactly
/// as `spec_plan_tick` states. When the device already shows the
/// target, the tick is idle: no write is asked for.
pub fn plan_tick(read: Result<u8, RpiError>, target: u8) -> (a: TickAction)
    ensures
        a == spec_plan_tick(read, target),
        read == Ok::<u8, RpiError>(target) ==> a == TickAction::Idle,
{
    match read {
        Ok(current) => if current == target {
            TickAction::Idle
        } else {
            TickAction::Write(target)
        },
        Err(e) => if is_fatal(&e) {
            TickAction::Abort
        } else {
            TickAction::Backoff
        },
    }
}

/// Judges the outcome of the write step, exactly as
/// `spec_plan_after_write` states.
pub fn plan_after_write(wrote: Result<(), RpiError>) -> (a: TickAction)
    ensures
        a == spec_plan_after_write(wrote),
{
    match wrote {
        Ok(_) => TickAction::Idle,
        Err(e) => if is_fatal(&e) {
            TickAction::Abort
        } else {
            TickAction::Backoff
        },
    }
}

} // verus!
