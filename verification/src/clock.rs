//! The tie to wall-clock time: the minute of the day, as a fraction
//! of the whole day in micro-units.
//!
//! Only the reading of the clock itself is trusted; turning an hour
//! and minute into a fraction of the day is verified.

use chrono::Timelike;
use vstd::arithmetic::div_mod::{lemma_div_pos_is_pos, lemma_multiply_divide_lt};
use vstd::prelude::*;

use crate::curve::FRACTION_UNIT;

verus! {

/// Relies on chrono's `Local::now` and `Timelike::{hour, minute}`:
/// the hour number runs from 0 to 23 and the minute number from 0
/// to 59, whatever moment the clock reports.
#[verifier::external_body]
fn local_hour_minute() -> (r: (u32, u32))
    ensures
        r.0 < 24,
        r.1 < 60,
{
    let now = chrono::Local::now();
    (now.hour(), now.minute())
}

/// The fraction of the day at a wall-clock hour and minute, in
/// micro-units: the minute of the day over the 1440 minutes of a day.
pub open spec fn spec_fraction_of_day(hour: int, minute: int) -> int {
    ((hour * 60 + minute) * (FRACTION_UNIT as int)) / 1440
}

/// Turns an hour and minute into the fraction of the day, exactly as
/// `spec_fraction_of_day` states; the result is always below one
/// whole day.
pub fn fraction_of_day(hour: u32, minute: u32) -> (r: u32)
    requires
        hour < 24,
        minute < 60,
    ensures
        r == spec_fraction_of_day(hour as int, minute as int),
        r < FRACTION_UNIT,
{
    let minutes: u64 = (hour as u64) * 60 + (minute as u64);
    proof {
        assert(FRACTION_UNIT as u64 == 1_000_000);
        assert(minutes <= 1439);
        assert(minutes * (FRACTION_UNIT as u64) <= 1439 * 1_000_000) by (nonlinear_arith)
            requires
                minutes <= 1439,
                FRACTION_UNIT as u64 == 1_000_000,
        ;
    }
    let scaled: u64 = minutes * (FRACTION_UNIT as u64);
    proof {
        assert(1440 * 1_000_000 == 1_440_000_000int);
        lemma_multiply_divide_lt(scaled as int, 1440, 1_000_000);
        lemma_div_pos_is_pos(scaled as int, 1440);
    }
    let f: u64 = scaled / 1440;
    f as u32
}

/// The fraction of the day right now, read from the local clock. The
/// clock decides the value; whatever it reports, the result is a
/// valid fraction of the day.
pub fn current_day_fraction() -> (r: u32)
    ensures
        r < FRACTION_UNIT,
{
    let (hour, minute) = local_hour_minute();
    fraction_of_day(hour, minute)
}

} // verus!
