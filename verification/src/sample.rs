//! Fixed-point sample arithmetic.
//!
//! Amplitudes, envelope levels, gains and duty cycles are integers scaled by
//! `UNIT`: the value `UNIT` stands for 1.0, `UNIT / 2` for 0.5, and so on.
//! Samples are bipolar `i64` values on the same scale. All operations here
//! are exact integer arithmetic; additions and scalings saturate at the
//! `i64` range instead of overflowing.

use vstd::prelude::*;

verus! {

/// The fixed-point scale: this many integer steps stand for 1.0.
pub const UNIT: i64 = 1_000_000;

/// Clamp an unbounded integer into the `i64` range.
pub open spec fn sat_i64(x: int) -> i64 {
    if x > i64::MAX {
        i64::MAX
    } else if x < i64::MIN {
        i64::MIN
    } else {
        x as i64
    }
}

/// A sample scaled by a non-negative fixed-point gain, rounding the
/// magnitude toward zero.
pub open spec fn scaled(s: i64, gain: u64) -> int {
    if s >= 0 {
        s * gain / (UNIT as int)
    } else {
        -((-s) * gain / (UNIT as int))
    }
}

/// Saturating addition of two samples.
pub fn sat_add(a: i64, b: i64) -> (r: i64)
    ensures
        r == sat_i64(a + b),
{
    let wide: i128 = a as i128 + b as i128;
    if wide > i64::MAX as i128 {
        i64::MAX
    } else if wide < i64::MIN as i128 {
        i64::MIN
    } else {
        wide as i64
    }
}

/// Scale a sample by a fixed-point gain, saturating at the `i64` range.
/// The gain is bounded so the wide intermediate product cannot overflow.
pub fn scale(s: i64, gain: u64) -> (r: i64)
    requires
        gain <= 1_000_000_000_000,
    ensures
        r == sat_i64(scaled(s, gain)),
{
    let mag: i128 = if s >= 0 {
        s as i128
    } else {
        -(s as i128)
    };
    proof {
        lemma_scale_in_bounds(s as int, gain as int);
    }
    let wide: i128 = mag * gain as i128 / 1_000_000;
    let signed: i128 = if s >= 0 {
        wide
    } else {
        -wide
    };
    if signed > i64::MAX as i128 {
        i64::MAX
    } else if signed < i64::MIN as i128 {
        i64::MIN
    } else {
        signed as i64
    }
}

/// The wide product in `scale` stays far inside the `i128` range.
proof fn lemma_scale_in_bounds(s: int, gain: int)
    requires
        -0x8000_0000_0000_0000 <= s <= 0x7fff_ffff_ffff_ffff,
        0 <= gain <= 1_000_000_000_000,
    ensures
        (if s >= 0 { s } else { -s }) * gain <= 0x8000_0000_0000_0000 * 1_000_000_000_000,
        (if s >= 0 { s } else { -s }) * gain >= 0,
{
    let mag = if s >= 0 { s } else { -s };
    assert(mag * gain <= 0x8000_0000_0000_0000 * 1_000_000_000_000 && mag * gain >= 0)
        by (nonlinear_arith)
        requires
            0 <= mag <= 0x8000_0000_0000_0000,
            0 <= gain <= 1_000_000_000_000,
    ;
}

} // verus!
