//! Integer musical time. A `Tick` is an absolute position at 480 units per
//! quarter note; 480 divides cleanly by 2, 3, 4, 5, 8, 16 and 32, so all
//! standard subdivisions (including triplets) are exact.

use vstd::prelude::*;

verus! {

/// Resolution of musical time: ticks per quarter note.
pub const TICKS_PER_QUARTER: u64 = 480;

/// Absolute position in musical time. Integer-only, so positions never
/// drift. Durations are raw `u64` values; `Tick` is specifically a position.
#[derive(Debug, Clone, Copy, PartialEq, Eq, Structural, PartialOrd, Ord, Hash)]
pub struct Tick(pub u64);

impl Tick {
    /// The number of ticks this position stands for.
    pub open spec fn value(self) -> u64 {
        self.0
    }

    /// The origin of musical time.
    pub fn zero() -> (r: Tick)
        ensures
            r.value() == 0,
    {
        Tick(0)
    }

    /// Wrap a raw tick count.
    pub fn from_raw(ticks: u64) -> (r: Tick)
        ensures
            r.value() == ticks,
    {
        Tick(ticks)
    }

    /// Read back the raw tick count.
    pub fn ticks(self) -> (r: u64)
        ensures
            r == self.value(),
    {
        self.0
    }

    /// Position after `quarters` whole quarter notes.
    pub fn from_quarters(quarters: u64) -> (r: Tick)
        requires
            quarters * TICKS_PER_QUARTER <= u64::MAX,
        ensures
            r.value() == quarters * TICKS_PER_QUARTER,
    {
        Tick(quarters * TICKS_PER_QUARTER)
    }

    /// Construct from a beat fraction (e.g. 1/16 = sixteenth note).
    /// The fraction must divide the resolution exactly: a denominator that
    /// does not is a construction-time contract violation, not a runtime
    /// error, so it is excluded here rather than reported.
    pub fn from_beats(numerator: u64, denominator: u64) -> (r: Tick)
        requires
            denominator > 0,
            numerator * TICKS_PER_QUARTER * 4 <= u64::MAX,
            numerator * TICKS_PER_QUARTER * 4 % (denominator as int) == 0,
        ensures
            r.value() == numerator * TICKS_PER_QUARTER * 4 / (denominator as int),
    {
        let total = numerator * TICKS_PER_QUARTER * 4;
        Tick(total / denominator)
    }

    /// Round to the nearest multiple of `grid`; ties round up.
    pub fn snap_to_grid(self, grid: u64) -> (r: Tick)
        requires
            grid > 0,
            self.value() + grid / 2 <= u64::MAX,
        ensures
            r.value() == (self.value() + grid / 2) / (grid as int) * grid,
    {
        proof {
            lemma_div_times_divisor_le((self.0 + grid / 2) as int, grid as int);
        }
        Tick((self.0 + grid / 2) / grid * grid)
    }

    /// Subtract, saturating at zero: a position never goes negative.
    pub fn saturating_sub(self, other: Tick) -> (r: Tick)
        ensures
            r.value() == if self.value() >= other.value() {
                self.value() - other.value()
            } else {
                0
            },
    {
        Tick(self.0.saturating_sub(other.0))
    }
}

/// For positive d, rounding x down to a multiple of d never exceeds x.
proof fn lemma_div_times_divisor_le(x: int, d: int)
    requires
        x >= 0,
        d > 0,
    ensures
        x / d * d <= x,
        x / d * d >= 0,
{
    assert(x / d * d <= x && x / d * d >= 0) by (nonlinear_arith)
        requires
            x >= 0,
            d > 0,
    ;
}

/// Beat-fraction construction is exact: when the denominator divides the
/// total evenly (as `from_beats` demands), no part of the fraction is
/// lost — scaling the resulting tick count back up recovers the total.
pub proof fn lemma_from_beats_exact(numerator: u64, denominator: u64)
    requires
        denominator > 0,
        numerator * TICKS_PER_QUARTER * 4 % (denominator as int) == 0,
    ensures
        numerator * TICKS_PER_QUARTER * 4 / (denominator as int) * denominator == numerator
            * TICKS_PER_QUARTER * 4,
{
    let total = numerator as int * 480 * 4;
    let d = denominator as int;
    assert(total / d * d == total) by (nonlinear_arith)
        requires
            d > 0,
            total % d == 0,
    ;
}

/// The snapped position is the multiple of `grid` nearest to `t`, with a
/// tie exactly halfway rounding up: it sits strictly less than half a grid
/// below, and at most half a grid above, the original position.
pub proof fn lemma_snap_is_nearest(t: u64, grid: u64)
    requires
        grid > 0,
        t + grid / 2 <= u64::MAX,
    ensures
        ((t + grid / 2) / (grid as int) * grid) % (grid as int) == 0,
        (t + grid / 2) / (grid as int) * grid <= t + grid / 2,
        t + grid / 2 < (t + grid / 2) / (grid as int) * grid + grid,
{
    let s = (t + grid / 2) as int;
    let g = grid as int;
    assert(s / g * g % g == 0 && s / g * g <= s && s < s / g * g + g) by (nonlinear_arith)
        requires
            s >= 0,
            g > 0,
    ;
}

impl core::ops::Add for Tick {
    type Output = Tick;

    fn add(self, rhs: Tick) -> Tick {
        Tick(self.0 + rhs.0)
    }
}

impl vstd::std_specs::ops::AddSpecImpl for Tick {
    open spec fn obeys_add_spec() -> bool {
        true
    }

    open spec fn add_req(self, rhs: Tick) -> bool {
        self.value() + rhs.value() <= u64::MAX
    }

    open spec fn add_spec(self, rhs: Tick) -> Tick {
        Tick((self.value() + rhs.value()) as u64)
    }
}

impl core::ops::Sub for Tick {
    type Output = Tick;

    fn sub(self, rhs: Tick) -> Tick {
        Tick(self.0 - rhs.0)
    }
}

impl vstd::std_specs::ops::SubSpecImpl for Tick {
    open spec fn obeys_sub_spec() -> bool {
        true
    }

    open spec fn sub_req(self, rhs: Tick) -> bool {
        self.value() >= rhs.value()
    }

    open spec fn sub_spec(self, rhs: Tick) -> Tick {
        Tick((self.value() - rhs.value()) as u64)
    }
}

} // verus!
