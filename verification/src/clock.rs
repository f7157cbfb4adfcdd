//! Bridge between musical time (ticks) and audio time (samples).
//!
//! The audio thread never accumulates tick positions on its own: the sample
//! count is the single authoritative clock, and tick values are always
//! derived from it, so two counters can never drift apart.
//!
//! Conversion is exact integer arithmetic. Ticks convert to samples rounding
//! up (ceiling) and samples convert back to ticks rounding down
//! (truncation); this asymmetry makes the round trip stable for any tick
//! position, at any tempo where a tick lasts at least one sample.

use vstd::prelude::*;

use crate::tick::{Tick, TICKS_PER_QUARTER};

verus! {

/// The sample index a tick position maps to: elapsed seconds are
/// `t / 480 / (bpm / 60)`, scaled by the sample rate and rounded up.
pub open spec fn ticks_to_samples(t: int, sample_rate: int, bpm: int) -> int {
    (t * sample_rate * 60 + TICKS_PER_QUARTER * bpm - 1) / (TICKS_PER_QUARTER * bpm)
}

/// The tick position a sample index maps to, by the inverse arithmetic,
/// rounded down.
pub open spec fn samples_to_ticks(s: int, sample_rate: int, bpm: int) -> int {
    s * TICKS_PER_QUARTER * bpm / (sample_rate * 60)
}

/// Converts between tick positions and absolute sample indices at a given
/// tempo, for one fixed sample rate.
#[derive(Debug)]
pub struct Clock {
    sample_position: u64,
    sample_rate: u32,
}

impl Clock {
    pub closed spec fn rate(&self) -> u32 {
        self.sample_rate
    }

    pub closed spec fn position(&self) -> u64 {
        self.sample_position
    }

    /// A clock at sample position zero.
    pub fn new(sample_rate: u32) -> (r: Clock)
        requires
            sample_rate >= 1,
        ensures
            r.rate() == sample_rate,
            r.position() == 0,
    {
        Clock { sample_position: 0, sample_rate }
    }

    /// Convert a tick position to the corresponding sample index, rounding
    /// up, so that `sample_to_tick(tick_to_sample(t)) == t` whenever a tick
    /// lasts at least one sample.
    pub fn tick_to_sample(&self, tick: Tick, bpm: u32) -> (r: u64)
        requires
            bpm >= 1,
            self.rate() >= 1,
            tick.value() * self.rate() * 60 <= u64::MAX,
        ensures
            r == ticks_to_samples(tick.value() as int, self.rate() as int, bpm as int),
    {
        let num: u128 = tick.ticks() as u128 * self.sample_rate as u128 * 60;
        let den: u128 = 480u128 * bpm as u128;
        let r: u128 = (num + (den - 1)) / den;
        proof {
            lemma_ceil_div_le_num(num as int, den as int);
        }
        r as u64
    }

    /// Derive the tick position reached at a sample index, rounding down.
    /// Used to report the playhead back to a control surface; the audio
    /// thread never stores ticks.
    pub fn sample_to_tick(&self, sample: u64, bpm: u32) -> (r: Tick)
        requires
            bpm >= 1,
            self.rate() >= 1,
            sample * TICKS_PER_QUARTER * bpm <= u64::MAX,
        ensures
            r.value() == samples_to_ticks(sample as int, self.rate() as int, bpm as int),
    {
        let num: u128 = sample as u128 * 480u128 * bpm as u128;
        let den: u128 = self.sample_rate as u128 * 60;
        let r: u128 = num / den;
        proof {
            lemma_div_le_num(num as int, den as int);
        }
        Tick(r as u64)
    }
}

/// Rounding a non-negative quotient up never exceeds the numerator.
proof fn lemma_ceil_div_le_num(num: int, den: int)
    requires
        num >= 0,
        den >= 1,
    ensures
        0 <= (num + den - 1) / den <= num,
{
    assert(0 <= (num + den - 1) / den <= num) by (nonlinear_arith)
        requires
            num >= 0,
            den >= 1,
    ;
}

/// A non-negative quotient never exceeds the numerator.
proof fn lemma_div_le_num(num: int, den: int)
    requires
        num >= 0,
        den >= 1,
    ensures
        0 <= num / den <= num,
{
    assert(0 <= num / den <= num) by (nonlinear_arith)
        requires
            num >= 0,
            den >= 1,
    ;
}

/// Round-trip stability: converting a tick position to samples (rounding
/// up) and back (rounding down) returns the original position, at any tempo
/// where one tick lasts at least one sample (`8 * bpm <= sample_rate`).
pub proof fn lemma_clock_round_trip(t: int, sample_rate: int, bpm: int)
    requires
        t >= 0,
        bpm >= 1,
        8 * bpm <= sample_rate,
    ensures
        samples_to_ticks(ticks_to_samples(t, sample_rate, bpm), sample_rate, bpm) == t,
{
    let a = sample_rate * 60;
    let b = TICKS_PER_QUARTER as int * bpm;
    let s = ticks_to_samples(t, sample_rate, bpm);
    assert(b <= a) by (nonlinear_arith)
        requires
            8 * bpm <= sample_rate,
            bpm >= 1,
            a == sample_rate * 60,
            b == 480 * bpm,
    ;
    assert(s == (t * a + b - 1) / b) by {
        assert(t * sample_rate * 60 == t * a) by (nonlinear_arith)
            requires
                a == sample_rate * 60,
        ;
    }
    // The ceiling lands in [t * a, t * a + b - 1].
    assert(t * a <= s * b <= t * a + b - 1) by (nonlinear_arith)
        requires
            s == (t * a + b - 1) / b,
            t >= 0,
            a >= b >= 1,
    ;
    // Dividing back down by a therefore recovers exactly t.
    assert(s * b / a == t) by (nonlinear_arith)
        requires
            t * a <= s * b <= t * a + b - 1,
            1 <= b <= a,
            t >= 0,
    ;
    assert(samples_to_ticks(s, sample_rate, bpm) == s * b / a) by (nonlinear_arith)
        requires
            a == sample_rate * 60,
            b == 480 * bpm,
    ;
}

} // verus!
