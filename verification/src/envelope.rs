//! Per-voice linear ADSR amplitude envelope.
//!
//! The state machine advances one sample per `tick`. Levels are fixed-point
//! integers in `UNIT`ths (1.0 == `UNIT`); timing parameters are in
//! microseconds, except sustain, which is a level.

use vstd::prelude::*;

use crate::sample::UNIT;

verus! {

/// Times shorter than this many microseconds are treated as instantaneous,
/// so near-zero ramps jump instead of dividing by almost nothing.
pub const INSTANT_MICROS: u64 = 10;

/// ADSR stage. Progresses Idle -> Attack -> Decay -> Sustain -> Release -> Idle.
#[derive(Debug, Clone, Copy, PartialEq, Eq, Structural)]
pub enum State {
    Idle,
    Attack,
    Decay,
    Sustain,
    Release,
}

/// Ghost image of an envelope: the stage, the current fixed-point level,
/// the ADSR parameters, and the level captured when release began.
pub struct EnvView {
    pub state: State,
    pub level: int,
    pub attack_micros: int,
    pub decay_micros: int,
    pub sustain: int,
    pub release_micros: int,
    pub release_start: int,
}

impl EnvView {
    /// Levels stay inside `[0, UNIT]`; times fit a `u64`.
    pub open spec fn inv(self) -> bool {
        &&& 0 <= self.level <= UNIT
        &&& 0 <= self.sustain <= UNIT
        &&& 0 <= self.release_start <= UNIT
        &&& 0 <= self.attack_micros <= u64::MAX
        &&& 0 <= self.decay_micros <= u64::MAX
        &&& 0 <= self.release_micros <= u64::MAX
    }
}

/// The fixed-point amount one sample moves a ramp that crosses `span`
/// level units in `micros` microseconds at `rate` samples per second,
/// floored at one unit so every ramp makes progress.
pub open spec fn ramp_step(span: int, micros: int, rate: int) -> int {
    let raw = span * 1_000_000 / (micros * rate);
    if raw < 1 {
        1
    } else {
        raw
    }
}

/// One sample of the ADSR state machine.
///
/// - Attack rises toward `UNIT`; on reaching or exceeding it, clamps and
///   moves to Decay. A near-zero attack jumps straight to `UNIT`.
/// - Decay falls toward the sustain level; on reaching or crossing it,
///   clamps and moves to Sustain.
/// - Sustain and Idle hold their level until told otherwise.
/// - Release falls by a constant slope computed from the level at the
///   moment release began; on reaching or crossing zero, clamps and goes
///   Idle.
pub open spec fn env_tick_spec(e: EnvView, rate: int) -> EnvView {
    match e.state {
        State::Idle => e,
        State::Attack => {
            if e.attack_micros < INSTANT_MICROS {
                EnvView { state: State::Decay, level: UNIT as int, ..e }
            } else {
                let s = ramp_step(UNIT as int, e.attack_micros, rate);
                if e.level + s >= UNIT {
                    EnvView { state: State::Decay, level: UNIT as int, ..e }
                } else {
                    EnvView { level: e.level + s, ..e }
                }
            }
        },
        State::Decay => {
            if e.decay_micros < INSTANT_MICROS {
                EnvView { state: State::Sustain, level: e.sustain, ..e }
            } else {
                let s = ramp_step(UNIT - e.sustain, e.decay_micros, rate);
                if e.level - s <= e.sustain {
                    EnvView { state: State::Sustain, level: e.sustain, ..e }
                } else {
                    EnvView { level: e.level - s, ..e }
                }
            }
        },
        State::Sustain => e,
        State::Release => {
            if e.release_micros < INSTANT_MICROS {
                EnvView { state: State::Idle, level: 0, ..e }
            } else {
                let s = ramp_step(e.release_start, e.release_micros, rate);
                if e.level - s <= 0 {
                    EnvView { state: State::Idle, level: 0, ..e }
                } else {
                    EnvView { level: e.level - s, ..e }
                }
            }
        },
    }
}

/// Per-voice linear ADSR envelope; one per voice, advanced per sample.
#[derive(Debug)]
pub struct Envelope {
    state: State,
    level: i64,
    attack_micros: u64,
    decay_micros: u64,
    sustain: i64,
    release_micros: u64,
    release_start: i64,
}

impl View for Envelope {
    type V = EnvView;

    closed spec fn view(&self) -> EnvView {
        EnvView {
            state: self.state,
            level: self.level as int,
            attack_micros: self.attack_micros as int,
            decay_micros: self.decay_micros as int,
            sustain: self.sustain as int,
            release_micros: self.release_micros as int,
            release_start: self.release_start as int,
        }
    }
}

impl Envelope {
    /// A fresh envelope: idle at level zero with zeroed parameters.
    pub fn new() -> (r: Envelope)
        ensures
            r@ == (EnvView {
                state: State::Idle,
                level: 0,
                attack_micros: 0,
                decay_micros: 0,
                sustain: 0,
                release_micros: 0,
                release_start: 0,
            }),
            r@.inv(),
    {
        Envelope {
            state: State::Idle,
            level: 0,
            attack_micros: 0,
            decay_micros: 0,
            sustain: 0,
            release_micros: 0,
            release_start: 0,
        }
    }

    /// Start the envelope from zero. Valid from any state (a stolen voice
    /// re-triggers mid-flight).
    pub fn trigger(&mut self)
        requires
            old(self)@.inv(),
        ensures
            final(self)@ == (EnvView { state: State::Attack, level: 0, ..old(self)@ }),
            final(self)@.inv(),
    {
        self.state = State::Attack;
        self.level = 0;
    }

    /// Begin release from the *current* level, captured so the release
    /// ramp is correct even when release starts mid-attack or mid-decay.
    pub fn release(&mut self)
        requires
            old(self)@.inv(),
        ensures
            final(self)@ == (EnvView {
                state: State::Release,
                release_start: old(self)@.level,
                ..old(self)@
            }),
            final(self)@.inv(),
    {
        self.release_start = self.level;
        self.state = State::Release;
    }

    /// Set the ADSR parameters (times in microseconds; sustain is a level
    /// in `UNIT`ths). Called after `trigger` so a voice copies the synth's
    /// current values.
    pub fn adsr(&mut self, attack_micros: u64, decay_micros: u64, sustain: i64, release_micros: u64)
        requires
            old(self)@.inv(),
            0 <= sustain <= UNIT,
        ensures
            final(self)@ == (EnvView {
                attack_micros: attack_micros as int,
                decay_micros: decay_micros as int,
                sustain: sustain as int,
                release_micros: release_micros as int,
                ..old(self)@
            }),
            final(self)@.inv(),
    {
        self.attack_micros = attack_micros;
        self.decay_micros = decay_micros;
        self.sustain = sustain;
        self.release_micros = release_micros;
    }

    /// Advance exactly one sample; returns the new level.
    pub fn tick(&mut self, sample_rate: u32) -> (r: i64)
        requires
            old(self)@.inv(),
            sample_rate >= 1,
        ensures
            final(self)@ == env_tick_spec(old(self)@, sample_rate as int),
            r == final(self)@.level,
            final(self)@.inv(),
    {
        match self.state {
            State::Idle => {},
            State::Attack => {
                if self.attack_micros < INSTANT_MICROS {
                    self.level = UNIT;
                    self.state = State::Decay;
                } else {
                    let s = ramp_step_exec(UNIT, self.attack_micros, sample_rate);
                    if self.level + s >= UNIT {
                        self.level = UNIT;
                        self.state = State::Decay;
                    } else {
                        self.level = self.level + s;
                    }
                }
            },
            State::Decay => {
                if self.decay_micros < INSTANT_MICROS {
                    self.level = self.sustain;
                    self.state = State::Sustain;
                } else {
                    let s = ramp_step_exec(UNIT - self.sustain, self.decay_micros, sample_rate);
                    if self.level - s <= self.sustain {
                        self.level = self.sustain;
                        self.state = State::Sustain;
                    } else {
                        self.level = self.level - s;
                    }
                }
            },
            State::Sustain => {},
            State::Release => {
                if self.release_micros < INSTANT_MICROS {
                    self.level = 0;
                    self.state = State::Idle;
                } else {
                    let s = ramp_step_exec(self.release_start, self.release_micros, sample_rate);
                    if self.level - s <= 0 {
                        self.level = 0;
                        self.state = State::Idle;
                    } else {
                        self.level = self.level - s;
                    }
                }
            },
        }
        self.level
    }

    /// True exactly when the envelope has reached (or never left) Idle.
    pub fn is_idle(&self) -> (r: bool)
        ensures
            r == (self@.state == State::Idle),
    {
        self.state == State::Idle
    }

    /// True exactly when the envelope is in its Release stage.
    pub fn is_releasing(&self) -> (r: bool)
        ensures
            r == (self@.state == State::Release),
    {
        self.state == State::Release
    }

    /// Force the idle baseline unconditionally, keeping the parameters.
    pub fn reset(&mut self)
        requires
            old(self)@.inv(),
        ensures
            final(self)@ == (EnvView { state: State::Idle, level: 0, ..old(self)@ }),
            final(self)@.inv(),
    {
        self.state = State::Idle;
        self.level = 0;
    }
}

/// Exact executable mirror of `ramp_step`.
fn ramp_step_exec(span: i64, micros: u64, rate: u32) -> (r: i64)
    requires
        0 <= span <= UNIT,
        micros >= 1,
        rate >= 1,
    ensures
        r == ramp_step(span as int, micros as int, rate as int),
        1 <= r <= 1_000_000_000_000,
{
    proof {
        assert(1 <= micros as int * rate as int <= 0xffff_ffff_ffff_ffff * 0x1_0000_0000)
            by (nonlinear_arith)
            requires
                1 <= micros <= 0xffff_ffff_ffff_ffff,
                1 <= rate <= 0xffff_ffff,
        ;
    }
    let denom: u128 = micros as u128 * rate as u128;
    let raw: u128 = span as u128 * 1_000_000u128 / denom;
    proof {
        assert(span as int * 1_000_000 / (micros as int * rate as int) <= 1_000_000_000_000
            && span as int * 1_000_000 / (micros as int * rate as int) >= 0) by (nonlinear_arith)
            requires
                0 <= span <= 1_000_000,
                micros >= 1,
                rate >= 1,
        ;
    }
    if raw < 1 {
        1
    } else {
        raw as i64
    }
}

/// Ticking preserves the envelope invariant.
pub proof fn lemma_env_tick_inv(e: EnvView, rate: int)
    requires
        e.inv(),
        rate >= 1,
    ensures
        env_tick_spec(e, rate).inv(),
{
    match e.state {
        State::Attack => {
            if e.attack_micros >= INSTANT_MICROS {
                lemma_ramp_step_pos(UNIT as int, e.attack_micros, rate);
            }
        },
        State::Decay => {
            if e.decay_micros >= INSTANT_MICROS {
                lemma_ramp_step_pos(UNIT - e.sustain, e.decay_micros, rate);
            }
        },
        State::Release => {
            if e.release_micros >= INSTANT_MICROS {
                lemma_ramp_step_pos(e.release_start, e.release_micros, rate);
            }
        },
        _ => {},
    }
}

/// A ramp step is always at least one level unit.
pub proof fn lemma_ramp_step_pos(span: int, micros: int, rate: int)
    requires
        0 <= span,
        micros >= 1,
        rate >= 1,
    ensures
        ramp_step(span, micros, rate) >= 1,
{
    assert(span * 1_000_000 / (micros * rate) >= 0 || span * 1_000_000 / (micros * rate) < 1)
        by (nonlinear_arith)
        requires
            0 <= span,
            micros >= 1,
            rate >= 1,
    ;
}

/// The envelope after `n` samples.
pub open spec fn env_run(e: EnvView, rate: int, n: nat) -> EnvView
    decreases n,
{
    if n == 0 {
        e
    } else {
        env_run(env_tick_spec(e, rate), rate, (n - 1) as nat)
    }
}

/// From Attack, ticking long enough always reaches full level and moves to
/// Decay: each step either raises the level by at least one unit or clamps
/// to `UNIT` and transitions.
pub proof fn lemma_attack_reaches_decay(e: EnvView, rate: int)
    requires
        e.inv(),
        e.state == State::Attack,
        rate >= 1,
    ensures
        exists|n: nat|
            (#[trigger] env_run(e, rate, n)).state == State::Decay && env_run(e, rate, n).level
                == UNIT,
    decreases UNIT - e.level,
{
    let e1 = env_tick_spec(e, rate);
    lemma_env_tick_inv(e, rate);
    if e1.state == State::Decay {
        assert(env_run(e, rate, 1) == env_run(e1, rate, 0));
        assert(env_run(e1, rate, 0) == e1);
        assert(e1.level == UNIT);
    } else {
        if e.attack_micros >= INSTANT_MICROS {
            lemma_ramp_step_pos(UNIT as int, e.attack_micros, rate);
        }
        assert(e1.state == State::Attack && e1.level >= e.level + 1);
        lemma_attack_reaches_decay(e1, rate);
        let n1 = choose|n: nat|
            (#[trigger] env_run(e1, rate, n)).state == State::Decay && env_run(e1, rate, n).level
                == UNIT;
        assert(env_run(e, rate, n1 + 1) == env_run(e1, rate, n1));
    }
}

/// From Release, ticking long enough always reaches level zero and goes
/// Idle: each step either lowers the level by at least one unit or clamps
/// to zero and transitions.
pub proof fn lemma_release_reaches_idle(e: EnvView, rate: int)
    requires
        e.inv(),
        e.state == State::Release,
        rate >= 1,
    ensures
        exists|n: nat|
            (#[trigger] env_run(e, rate, n)).state == State::Idle && env_run(e, rate, n).level
                == 0,
    decreases e.level,
{
    let e1 = env_tick_spec(e, rate);
    lemma_env_tick_inv(e, rate);
    if e1.state == State::Idle {
        assert(env_run(e, rate, 1) == env_run(e1, rate, 0));
        assert(env_run(e1, rate, 0) == e1);
        assert(e1.level == 0);
    } else {
        if e.release_micros >= INSTANT_MICROS {
            lemma_ramp_step_pos(e.release_start, e.release_micros, rate);
        }
        assert(e1.state == State::Release && e1.level <= e.level - 1);
        lemma_release_reaches_idle(e1, rate);
        let n1 = choose|n: nat|
            (#[trigger] env_run(e1, rate, n)).state == State::Idle && env_run(e1, rate, n).level
                == 0;
        assert(env_run(e, rate, n1 + 1) == env_run(e1, rate, n1));
    }
}

} // verus!
