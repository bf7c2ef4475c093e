//! The brightness curve: a pure map from the time of day and three
//! configured breakpoints to a target brightness value.
//!
//! All quantities are fixed-point: a fraction of the day, and the
//! normalized brightness, are carried in micro-units (millionths), so
//! the curve needs no floating point. The day is conceptually split in
//! three equal phases, hence the factor of three in the phase of the
//! cosine; with breakpoints away from thirds of the day the curve does
//! not land exactly on its extremes at the breakpoints, a deliberate,
//! accepted approximation.
//!
//! The cosine itself is evaluated through a rational fixed-point
//! approximation of the half-period sine (accurate to a few
//! thousandths of the amplitude), so the segment shapes are smooth
//! cosine easings rather than table lookups.

use vstd::arithmetic::div_mod::{
    lemma_div_pos_is_pos, lemma_mod_division_less_than_divisor, lemma_multiply_divide_le,
    lemma_multiply_divide_lt,
};
use vstd::prelude::*;

verus! {

/// One whole, in the fixed-point scale of this module: fractions of
/// the day and normalized brightness both run from 0 to this value.
pub const FRACTION_UNIT: u32 = 1_000_000;

/// Half of `FRACTION_UNIT`, the rounding offset and the quarter-turn
/// of the fixed-point cosine.
pub const HALF_UNIT: u32 = 500_000;

/// The day is split in this many equal curve phases.
pub const CURVE_PHASES: u32 = 3;

/// The brightness written when the curve is fully down; keeps the
/// display from going completely dark.
pub const BRIGHTNESS_FLOOR: u8 = 10;

/// The brightness span of the curve; floor plus scale stays within
/// the device's maximum of 255.
pub const BRIGHTNESS_SCALE: u8 = 245;

/// The three configured breakpoints of the curve, each a fraction of
/// the day in micro-units, expected (but not enforced) to satisfy
/// `0 <= sunrise < noon < dusk < FRACTION_UNIT`.
#[derive(Clone, Copy, Debug, PartialEq, Eq, Structural)]
pub struct TimeStates {
    /// Start of the rising-brightness window.
    pub sunrise: u32,
    /// End of the rising window, start of the plateau.
    pub noon: u32,
    /// End of the plateau, start of the falling window.
    pub dusk: u32,
}

/// The sine of `t` half-turns (`t` in micro-units, 0 to one whole
/// half-turn), scaled by `FRACTION_UNIT`: a rational approximation
/// that is exact at 0, the quarter turn and the half turn.
pub open spec fn spec_half_sine(t: int) -> int
    recommends
        0 <= t <= FRACTION_UNIT,
{
    let w = (t * (FRACTION_UNIT - t)) / (FRACTION_UNIT as int);
    (16 * w * (FRACTION_UNIT as int)) / (5 * (FRACTION_UNIT as int) - 4 * w)
}

/// The cosine of `p` half-turns (`p` in micro-units, 0 to one whole
/// turn), scaled by `FRACTION_UNIT`, folded onto the half-sine.
pub open spec fn spec_cos(p: int) -> int
    recommends
        0 <= p < 2 * FRACTION_UNIT,
{
    if p <= HALF_UNIT {
        spec_half_sine(p + HALF_UNIT)
    } else if p < 3 * (HALF_UNIT as int) {
        -spec_half_sine(p - HALF_UNIT)
    } else {
        spec_half_sine(p - 3 * (HALF_UNIT as int))
    }
}

/// The phase of the curve's cosine at a fraction of the day: three
/// phases per day, folded onto one turn.
pub open spec fn spec_phase(fraction: int) -> int {
    (CURVE_PHASES * fraction) % (2 * (FRACTION_UNIT as int))
}

/// The normalized brightness at a fraction of the day, in micro-units
/// of the full amplitude. The segments are selected by strict
/// comparisons against the breakpoints, so a fraction exactly equal to
/// a breakpoint falls through to the idle value; with disordered
/// breakpoints the falling segment takes precedence over the plateau,
/// which takes precedence over the rising segment.
pub open spec fn spec_normalized(fraction: int, states: TimeStates) -> int {
    let c = spec_cos(spec_phase(fraction));
    if fraction > states.dusk {
        ((FRACTION_UNIT as int) + c) / 2
    } else if states.noon < fraction && fraction < states.dusk {
        FRACTION_UNIT as int
    } else if states.sunrise < fraction && fraction < states.noon {
        ((FRACTION_UNIT as int) - c) / 2
    } else {
        0
    }
}

/// The device brightness at a fraction of the day: the normalized
/// brightness scaled onto `BRIGHTNESS_SCALE`, rounded to the nearest
/// unit, and lifted by `BRIGHTNESS_FLOOR`.
pub open spec fn spec_compute(fraction: int, states: TimeStates) -> int {
    BRIGHTNESS_FLOOR + (spec_normalized(fraction, states) * (BRIGHTNESS_SCALE as int)
        + HALF_UNIT) / (FRACTION_UNIT as int)
}

/// The half-sine stays within the amplitude: its value lies between 0
/// and `FRACTION_UNIT` over the whole half-turn.
pub proof fn lemma_half_sine_bounds(t: int)
    requires
        0 <= t <= FRACTION_UNIT,
    ensures
        0 <= spec_half_sine(t) <= FRACTION_UNIT,
{
    let u = FRACTION_UNIT as int;
    assert(u == 1_000_000);
    let prod = t * (u - t);
    assert(0 <= prod && prod <= 250_000 * u) by (nonlinear_arith)
        requires
            0 <= t <= 1_000_000,
            u == 1_000_000,
            prod == t * (u - t),
    ;
    let w = prod / u;
    lemma_div_pos_is_pos(prod, u);
    assert(u * 250_000 == 250_000 * u);
    lemma_multiply_divide_le(prod, u, 250_000);
    assert(0 <= w <= 250_000);
    let d = 5 * u - 4 * w;
    let n = 16 * w * u;
    assert(4 * u <= d <= 5 * u);
    assert(0 <= n && n <= d * u) by (nonlinear_arith)
        requires
            0 <= w <= 250_000,
            u == 1_000_000,
            d == 5 * u - 4 * w,
            n == 16 * w * u,
    ;
    lemma_div_pos_is_pos(n, d);
    lemma_multiply_divide_le(n, d, u);
    assert(spec_half_sine(t) == n / d);
}

/// The fixed-point cosine stays within the amplitude over the whole
/// turn.
pub proof fn lemma_cos_bounds(p: int)
    requires
        0 <= p < 2 * FRACTION_UNIT,
    ensures
        -(FRACTION_UNIT as int) <= spec_cos(p) <= FRACTION_UNIT,
{
    if p <= HALF_UNIT {
        lemma_half_sine_bounds(p + HALF_UNIT);
    } else if p < 3 * (HALF_UNIT as int) {
        lemma_half_sine_bounds(p - HALF_UNIT);
    } else {
        lemma_half_sine_bounds(p - 3 * (HALF_UNIT as int));
    }
}

/// The normalized brightness lies between 0 (idle) and one whole
/// amplitude (plateau), whatever the breakpoints are.
pub proof fn lemma_normalized_bounds(fraction: int, states: TimeStates)
    requires
        0 <= fraction,
    ensures
        0 <= spec_normalized(fraction, states) <= FRACTION_UNIT,
{
    let p = spec_phase(fraction);
    lemma_mod_division_less_than_divisor(
        CURVE_PHASES * fraction,
        2 * (FRACTION_UNIT as int),
    );
    lemma_cos_bounds(p);
}

/// The curve never leaves the device's range: for every fraction of
/// the day and all breakpoints, the computed brightness lies between
/// `BRIGHTNESS_FLOOR` and 255.
pub proof fn lemma_compute_in_range(fraction: int, states: TimeStates)
    requires
        0 <= fraction < FRACTION_UNIT,
    ensures
        BRIGHTNESS_FLOOR <= spec_compute(fraction, states) <= 255,
{
    lemma_normalized_bounds(fraction, states);
    let b = spec_normalized(fraction, states);
    let scaled = (b * (BRIGHTNESS_SCALE as int) + HALF_UNIT) / (FRACTION_UNIT as int);
    assert(b * (BRIGHTNESS_SCALE as int) + HALF_UNIT < 246_000_000);
    assert(1_000_000 * 246 == 246_000_000);
    lemma_multiply_divide_lt(b * (BRIGHTNESS_SCALE as int) + HALF_UNIT, 1_000_000, 246);
    lemma_div_pos_is_pos(b * (BRIGHTNESS_SCALE as int) + HALF_UNIT, 1_000_000);
    assert(0 <= scaled <= 245);
}

/// Strictly inside the plateau the curve is pinned to its maximum:
/// the floor plus the whole scale, 255 device units.
pub proof fn lemma_plateau_value(fraction: int, states: TimeStates)
    requires
        states.noon < fraction < states.dusk,
    ensures
        spec_compute(fraction, states) == BRIGHTNESS_FLOOR + BRIGHTNESS_SCALE,
{
    assert(spec_normalized(fraction, states) == FRACTION_UNIT);
}

/// A fraction exactly equal to a breakpoint selects no segment: with
/// ordered breakpoints, the curve yields the idle brightness there,
/// because every segment is bounded by strict comparisons.
pub proof fn lemma_breakpoint_yields_idle(fraction: int, states: TimeStates)
    requires
        states.sunrise < states.noon,
        states.noon < states.dusk,
        fraction == states.sunrise || fraction == states.noon || fraction == states.dusk,
    ensures
        spec_compute(fraction, states) == BRIGHTNESS_FLOOR,
{
    assert(spec_normalized(fraction, states) == 0);
}

/// The fixed-point half-sine, exactly as `spec_half_sine` states.
fn half_sine(t: u32) -> (r: u32)
    requires
        t <= FRACTION_UNIT,
    ensures
        r as int == spec_half_sine(t as int),
        r <= FRACTION_UNIT,
{
    proof {
        lemma_half_sine_bounds(t as int);
        let a = t as int;
        let b = (FRACTION_UNIT - t) as int;
        assert(0 <= a * b && a * b <= 250_000_000_000) by (nonlinear_arith)
            requires
                0 <= a,
                0 <= b,
                a + b == 1_000_000,
        ;
        lemma_div_pos_is_pos(a * b, 1_000_000);
        assert(1_000_000 * 250_000 == 250_000_000_000);
        lemma_multiply_divide_le(a * b, 1_000_000, 250_000);
    }
    let tw: u64 = (t as u64) * ((FRACTION_UNIT - t) as u64);
    let w: u64 = tw / (FRACTION_UNIT as u64);
    proof {
        assert(w as int == ((t as int) * ((FRACTION_UNIT - t) as int)) / 1_000_000);
        assert(0 <= w <= 250_000);
    }
    let num: u64 = 16 * w * (FRACTION_UNIT as u64);
    let den: u64 = 5 * (FRACTION_UNIT as u64) - 4 * w;
    let q: u64 = num / den;
    proof {
        assert(q as int == spec_half_sine(t as int));
    }
    q as u32
}

/// The fixed-point cosine over one turn, split into a sign and a
/// magnitude so that the callers can stay in unsigned arithmetic:
/// the cosine's value is the magnitude, negated when the flag is set.
fn cos_fixed(p: u32) -> (r: (bool, u32))
    requires
        p < 2 * FRACTION_UNIT,
    ensures
        r.1 <= FRACTION_UNIT,
        spec_cos(p as int) == if r.0 {
            -(r.1 as int)
        } else {
            r.1 as int
        },
{
    if p <= HALF_UNIT {
        (false, half_sine(p + HALF_UNIT))
    } else if p < 3 * HALF_UNIT {
        (true, half_sine(p - HALF_UNIT))
    } else {
        (false, half_sine(p - 3 * HALF_UNIT))
    }
}

/// The brightness the device should show at a fraction of the day:
/// exactly `spec_compute`, and always within the device's range. Same
/// inputs always give the same value; the function reads no state.
pub fn compute(fraction: u32, states: &TimeStates) -> (r: u8)
    requires
        fraction < FRACTION_UNIT,
    ensures
        r as int == spec_compute(fraction as int, *states),
        BRIGHTNESS_FLOOR <= r <= 255,
{
    proof {
        lemma_compute_in_range(fraction as int, *states);
        lemma_mod_division_less_than_divisor(
            CURVE_PHASES * (fraction as int),
            2 * (FRACTION_UNIT as int),
        );
    }
    let phase: u32 = (CURVE_PHASES * fraction) % (2 * FRACTION_UNIT);
    let b: u32 = if fraction > states.dusk {
        let (neg, mag) = cos_fixed(phase);
        if neg {
            (FRACTION_UNIT - mag) / 2
        } else {
            (FRACTION_UNIT + mag) / 2
        }
    } else if states.noon < fraction && fraction < states.dusk {
        FRACTION_UNIT
    } else if states.sunrise < fraction && fraction < states.noon {
        let (neg, mag) = cos_fixed(phase);
        if neg {
            (FRACTION_UNIT + mag) / 2
        } else {
            (FRACTION_UNIT - mag) / 2
        }
    } else {
        0
    };
    proof {
        assert(b as int == spec_normalized(fraction as int, *states));
    }
    let scaled: u64 = ((b as u64) * (BRIGHTNESS_SCALE as u64) + (HALF_UNIT as u64))
        / (FRACTION_UNIT as u64);
    BRIGHTNESS_FLOOR + (scaled as u8)
}

} // verus!

