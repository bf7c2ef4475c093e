use rpi_backlight::clock::{current_day_fraction, fraction_of_day};
use rpi_backlight::codec::{encode_brightness, parse_brightness, parse_decimal_u8, trim_newline};
use rpi_backlight::curve::{
    compute, TimeStates, BRIGHTNESS_FLOOR, BRIGHTNESS_SCALE, FRACTION_UNIT,
};
use rpi_backlight::error::{is_fatal, map_error, IoFailure, ParseFault, RpiError};
use rpi_backlight::policy::{
    plan_after_write, plan_tick, TickAction, IDLE_SLEEP_SECS, RETRY_SLEEP_SECS,
};

fn thirds() -> TimeStates {
    TimeStates { sunrise: 0, noon: 333_000, dusk: 666_000 }
}

#[test]
fn trim_strips_one_lf() {
    assert_eq!(trim_newline(b"128\n"), &b"128"[..]);
}

#[test]
fn trim_strips_one_crlf() {
    assert_eq!(trim_newline(b"128\r\n"), &b"128"[..]);
}

#[test]
fn trim_leaves_bare_content() {
    assert_eq!(trim_newline(b"128"), &b"128"[..]);
}

#[test]
fn trim_strips_only_one_terminator() {
    assert_eq!(trim_newline(b"12\n\n"), &b"12\n"[..]);
    assert_eq!(trim_newline(b"12\r\n\r\n"), &b"12\r\n"[..]);
    assert_eq!(trim_newline(b"12\r"), &b"12\r"[..]);
}

#[test]
fn read_tolerates_lf_crlf_and_bare() {
    assert_eq!(parse_brightness(b"128\n"), Ok(128));
    assert_eq!(parse_brightness(b"128\r\n"), Ok(128));
    assert_eq!(parse_brightness(b"128"), Ok(128));
}

#[test]
fn read_rejects_empty_content() {
    assert_eq!(parse_brightness(b""), Err(RpiError::ParseError(ParseFault::Empty)));
    assert_eq!(parse_brightness(b"\n"), Err(RpiError::ParseError(ParseFault::Empty)));
    assert_eq!(parse_brightness(b"\r\n"), Err(RpiError::ParseError(ParseFault::Empty)));
}

#[test]
fn read_rejects_non_numeric_content() {
    assert_eq!(parse_brightness(b"abc"), Err(RpiError::ParseError(ParseFault::InvalidDigit)));
    assert_eq!(parse_brightness(b"12a\n"), Err(RpiError::ParseError(ParseFault::InvalidDigit)));
    assert_eq!(parse_brightness(b"-1"), Err(RpiError::ParseError(ParseFault::InvalidDigit)));
}

#[test]
fn read_rejects_values_above_the_range() {
    assert_eq!(parse_brightness(b"256"), Err(RpiError::ParseError(ParseFault::Overflow)));
    assert_eq!(parse_brightness(b"1000\n"), Err(RpiError::ParseError(ParseFault::Overflow)));
}

#[test]
fn parse_accepts_leading_zeros() {
    assert_eq!(parse_decimal_u8(b"007"), Ok(7));
    assert_eq!(parse_decimal_u8(b"0255"), Ok(255));
    assert_eq!(parse_decimal_u8(b"0300"), Err(ParseFault::Overflow));
}

#[test]
fn encode_writes_plain_decimal_digits() {
    assert_eq!(encode_brightness(0), b"0");
    assert_eq!(encode_brightness(7), b"7");
    assert_eq!(encode_brightness(42), b"42");
    assert_eq!(encode_brightness(100), b"100");
    assert_eq!(encode_brightness(255), b"255");
}

#[test]
fn write_then_read_round_trips_every_value() {
    for v in 0..=255u8 {
        let written = encode_brightness(v);
        assert_eq!(parse_brightness(&written), Ok(v));
    }
}

#[test]
fn compute_hits_the_plateau_value() {
    // 09:00 is fraction 0.375 of the day, inside the plateau.
    assert_eq!(compute(375_000, &thirds()), 255);
    assert_eq!(BRIGHTNESS_FLOOR as u16 + BRIGHTNESS_SCALE as u16, 255);
}

#[test]
fn compute_idles_before_sunrise() {
    let states = TimeStates { sunrise: 100_000, noon: 333_000, dusk: 666_000 };
    assert_eq!(compute(50_000, &states), BRIGHTNESS_FLOOR);
    assert_eq!(compute(0, &states), BRIGHTNESS_FLOOR);
}

#[test]
fn compute_on_a_breakpoint_falls_to_idle() {
    // The segments are bounded by strict comparisons, so exact
    // equality with a breakpoint selects none of them.
    let states = TimeStates { sunrise: 100_000, noon: 333_000, dusk: 666_000 };
    assert_eq!(compute(states.sunrise, &states), BRIGHTNESS_FLOOR);
    assert_eq!(compute(states.noon, &states), BRIGHTNESS_FLOOR);
    assert_eq!(compute(states.dusk, &states), BRIGHTNESS_FLOOR);
}

#[test]
fn compute_rising_segment_value() {
    assert_eq!(compute(166_000, &thirds()), 132);
}

#[test]
fn compute_falling_segment_value() {
    assert_eq!(compute(800_000, &thirds()), 171);
}

#[test]
fn compute_stays_in_range_for_every_minute() {
    let states = thirds();
    let skewed = TimeStates { sunrise: 700_000, noon: 100_000, dusk: 400_000 };
    for minute in 0..1440u32 {
        let f = fraction_of_day(minute / 60, minute % 60);
        for s in [&states, &skewed] {
            let r = compute(f, s);
            assert!(r >= BRIGHTNESS_FLOOR);
        }
    }
}

#[test]
fn compute_is_pure() {
    let states = thirds();
    for f in [0u32, 166_000, 375_000, 800_000, 999_999] {
        assert_eq!(compute(f, &states), compute(f, &states));
    }
}

#[test]
fn fraction_of_day_scales_the_minute_of_day() {
    assert_eq!(fraction_of_day(0, 0), 0);
    assert_eq!(fraction_of_day(9, 0), 375_000);
    assert_eq!(fraction_of_day(12, 0), 500_000);
    assert_eq!(fraction_of_day(23, 59), 999_305);
}

#[test]
fn current_fraction_is_a_valid_fraction() {
    assert!(current_day_fraction() < FRACTION_UNIT);
}

#[test]
fn io_failures_map_onto_the_taxonomy() {
    assert_eq!(map_error(IoFailure::NotFound), RpiError::FileMissing);
    assert_eq!(map_error(IoFailure::PermissionDenied), RpiError::MissingPermissions);
    assert_eq!(map_error(IoFailure::Other), RpiError::FileError);
}

#[test]
fn fatal_and_transient_errors_split_as_designed() {
    assert!(is_fatal(&RpiError::FileError));
    assert!(is_fatal(&RpiError::FileMissing));
    assert!(is_fatal(&RpiError::ParseError(ParseFault::InvalidDigit)));
    assert!(!is_fatal(&RpiError::MissingPermissions));
    assert!(!is_fatal(&RpiError::ReadError));
}

#[test]
fn equal_current_and_target_skip_the_write() {
    assert_eq!(plan_tick(Ok(128), 128), TickAction::Idle);
}

#[test]
fn changed_target_asks_for_a_write() {
    assert_eq!(plan_tick(Ok(100), 255), TickAction::Write(255));
}

#[test]
fn transient_read_errors_back_off() {
    assert_eq!(plan_tick(Err(RpiError::MissingPermissions), 10), TickAction::Backoff);
    assert_eq!(plan_tick(Err(RpiError::ReadError), 10), TickAction::Backoff);
}

#[test]
fn fatal_read_errors_abort() {
    assert_eq!(plan_tick(Err(RpiError::FileMissing), 10), TickAction::Abort);
    assert_eq!(plan_tick(Err(RpiError::FileError), 10), TickAction::Abort);
    assert_eq!(
        plan_tick(Err(RpiError::ParseError(ParseFault::Overflow)), 10),
        TickAction::Abort
    );
}

#[test]
fn write_outcomes_are_judged_by_the_same_policy() {
    assert_eq!(plan_after_write(Ok(())), TickAction::Idle);
    assert_eq!(plan_after_write(Err(RpiError::FileMissing)), TickAction::Abort);
    assert_eq!(plan_after_write(Err(RpiError::MissingPermissions)), TickAction::Backoff);
}

#[test]
fn sleep_intervals_are_the_designed_ones() {
    assert_eq!(IDLE_SLEEP_SECS, 1);
    assert_eq!(RETRY_SLEEP_SECS, 3);
}

#[test]
fn scenario_morning_tick_writes_the_plateau() {
    // Device file holds "100"; at 09:00 with third-of-day breakpoints
    // the curve is on its plateau, so the tick writes the maximum.
    let current = parse_brightness(b"100").unwrap();
    assert_eq!(current, 100);
    let target = compute(fraction_of_day(9, 0), &thirds());
    assert_eq!(target, 255);
    assert_eq!(plan_tick(Ok(current), target), TickAction::Write(255));
    assert_eq!(encode_brightness(target), b"255");
}

#[test]
fn scenario_missing_device_file_is_fatal() {
    let err = map_error(IoFailure::NotFound);
    assert_eq!(err, RpiError::FileMissing);
    assert_eq!(plan_tick(Err(err), 10), TickAction::Abort);
}

#[test]
fn scenario_non_numeric_content_is_fatal() {
    let read = parse_brightness(b"abc");
    assert_eq!(read, Err(RpiError::ParseError(ParseFault::InvalidDigit)));
    assert_eq!(plan_tick(read, 10), TickAction::Abort);
}
