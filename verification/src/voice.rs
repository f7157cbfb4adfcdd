//! A single voice of polyphony: a phase accumulator, an assigned note, and
//! an owned ADSR envelope. The synth allocates a fixed pool of these and
//! skips idle voices during rendering.

use vstd::prelude::*;

use crate::envelope::{env_tick_spec, EnvView, Envelope, State};
use crate::sample::UNIT;

verus! {

/// Upper bound on a voice's frequency, in millihertz (100 kHz) — far above
/// the audible range, and low enough that phase arithmetic cannot overflow.
pub const MAX_FREQ_MILLIHERTZ: u64 = 100_000_000;

/// One polyphonic voice of a duty-cycle-controlled bipolar pulse wave.
#[derive(Debug)]
pub struct Voice {
    /// Position inside the current wave cycle, fixed-point in `[0, UNIT)`.
    pub phase: u64,
    /// Oscillator frequency in millihertz.
    pub freq_millihertz: u64,
    /// MIDI velocity of the triggering note.
    pub velocity: u8,
    pub envelope: Envelope,
    /// The assigned note; `None` when the voice has never been triggered.
    pub note: Option<u8>,
    /// Monotonic trigger stamp for voice-steal ordering (higher = newer).
    pub age: u64,
}

/// Where the phase accumulator lands after one sample: advanced by
/// `frequency / sample_rate` of a cycle and wrapped into `[0, UNIT)`.
pub open spec fn phase_after(phase: int, freq_millihertz: int, rate: int) -> int {
    (phase + freq_millihertz * 1000 / rate) % (UNIT as int)
}

/// The bipolar pulse output: magnitude `level * velocity / 127`, positive
/// while the phase sits beyond the duty cycle, negative otherwise.
pub open spec fn pulse_sample(phase: int, duty: int, level: int, velocity: int) -> int {
    let mag = level * velocity / 127;
    if phase > duty {
        mag
    } else {
        -mag
    }
}

/// Ghost image of a voice.
pub struct VoiceView {
    pub phase: int,
    pub freq_millihertz: int,
    pub velocity: int,
    pub env: EnvView,
    pub note: Option<u8>,
    pub age: int,
}

impl VoiceView {
    /// Phase in range, 7-bit note and velocity, bounded frequency, and a
    /// well-formed envelope.
    pub open spec fn inv(self) -> bool {
        &&& 0 <= self.phase < UNIT
        &&& 0 <= self.freq_millihertz <= MAX_FREQ_MILLIHERTZ
        &&& 0 <= self.velocity < 128
        &&& self.env.inv()
        &&& 0 <= self.age <= u64::MAX
        &&& match self.note {
            Some(n) => n < 128,
            None => true,
        }
    }
}

impl View for Voice {
    type V = VoiceView;

    open spec fn view(&self) -> VoiceView {
        VoiceView {
            phase: self.phase as int,
            freq_millihertz: self.freq_millihertz as int,
            velocity: self.velocity as int,
            env: self.envelope@,
            note: self.note,
            age: self.age as int,
        }
    }
}

/// A voice's state after it renders one frame; the synth skips idle
/// voices, which stay exactly as they are.
pub open spec fn voice_frame(v: VoiceView, rate: int) -> VoiceView {
    if v.env.state == State::Idle {
        v
    } else {
        VoiceView {
            phase: phase_after(v.phase, v.freq_millihertz, rate),
            env: env_tick_spec(v.env, rate),
            ..v
        }
    }
}

/// The sample a voice contributes in one frame; zero for idle voices.
pub open spec fn voice_frame_sample(v: VoiceView, duty: int, rate: int) -> int {
    if v.env.state == State::Idle {
        0
    } else {
        let vn = voice_frame(v, rate);
        pulse_sample(vn.phase, duty, vn.env.level, vn.velocity)
    }
}

/// One frame keeps a voice well-formed, and its sample stays within one
/// full-scale unit either way.
pub proof fn lemma_voice_frame_ok(v: VoiceView, duty: int, rate: int)
    requires
        v.inv(),
        rate >= 1,
        0 <= duty <= UNIT,
    ensures
        voice_frame(v, rate).inv(),
        -UNIT <= voice_frame_sample(v, duty, rate) <= UNIT,
{
    if v.env.state != State::Idle {
        crate::envelope::lemma_env_tick_inv(v.env, rate);
        let u = UNIT as int;
        let moved = v.phase + v.freq_millihertz * 1000 / rate;
        assert(v.freq_millihertz * 1000 / rate >= 0) by (nonlinear_arith)
            requires
                v.freq_millihertz >= 0,
                rate >= 1,
        ;
        assert(0 <= moved % u < u) by (nonlinear_arith)
            requires
                moved >= 0,
                u > 0,
        ;
        let vn = voice_frame(v, rate);
        assert(0 <= vn.env.level * vn.velocity / 127 <= UNIT) by (nonlinear_arith)
            requires
                0 <= vn.env.level <= 1_000_000,
                0 <= vn.velocity < 128,
                UNIT == 1_000_000,
        ;
    }
}

impl Voice {
    /// Phase in range, 7-bit note and velocity, bounded frequency, and a
    /// well-formed envelope.
    pub open spec fn inv(self) -> bool {
        self@.inv()
    }

    /// A silent, unassigned voice.
    pub fn new() -> (r: Voice)
        ensures
            r.inv(),
            r.phase == 0,
            r.freq_millihertz == 0,
            r.velocity == 0,
            r.note is None,
            r.age == 0,
            r.envelope@.state == State::Idle,
            r.envelope@.level == 0,
    {
        Voice {
            phase: 0,
            freq_millihertz: 0,
            velocity: 0,
            envelope: Envelope::new(),
            note: None,
            age: 0,
        }
    }

    /// Render one sample: advance the phase by `frequency / sample_rate`
    /// of a cycle (wrapping by repeated subtraction), tick the envelope,
    /// and emit the enveloped, velocity-scaled pulse.
    pub fn render(&mut self, duty_cycle: u64, sample_rate: u32) -> (r: i64)
        requires
            old(self).inv(),
            duty_cycle as int <= UNIT,
            sample_rate >= 1,
        ensures
            final(self).inv(),
            final(self).phase == phase_after(
                old(self).phase as int,
                old(self).freq_millihertz as int,
                sample_rate as int,
            ),
            final(self).envelope@ == env_tick_spec(old(self).envelope@, sample_rate as int),
            final(self).freq_millihertz == old(self).freq_millihertz,
            final(self).velocity == old(self).velocity,
            final(self).note == old(self).note,
            final(self).age == old(self).age,
            r == pulse_sample(
                final(self).phase as int,
                duty_cycle as int,
                final(self).envelope@.level,
                final(self).velocity as int,
            ),
            -UNIT <= r <= UNIT,
    {
        let inc: u64 = self.freq_millihertz * 1000 / (sample_rate as u64);
        proof {
            assert(inc == old(self).freq_millihertz as int * 1000 / (sample_rate as int));
        }
        self.phase = self.phase + inc;
        let ghost advanced = self.phase as int;
        while self.phase >= 1_000_000
            invariant
                self.phase <= advanced,
                (self.phase as int) % (UNIT as int) == advanced % (UNIT as int),
                self.freq_millihertz == old(self).freq_millihertz,
                self.velocity == old(self).velocity,
                self.note == old(self).note,
                self.age == old(self).age,
                self.envelope == old(self).envelope,
            decreases self.phase,
        {
            proof {
                let x = self.phase as int;
                let u = UNIT as int;
                assert((x - u) % u == x % u) by (nonlinear_arith)
                    requires
                        x >= u,
                        u > 0,
                ;
            }
            self.phase = self.phase - 1_000_000;
        }
        proof {
            let x = self.phase as int;
            let u = UNIT as int;
            assert(x % u == x) by (nonlinear_arith)
                requires
                    0 <= x < u,
            ;
            assert(advanced % u >= 0) by (nonlinear_arith)
                requires
                    advanced >= 0,
                    u > 0,
            ;
        }
        let level = self.envelope.tick(sample_rate);
        proof {
            crate::envelope::lemma_env_tick_inv(old(self).envelope@, sample_rate as int);
        }
        proof {
            assert(0 <= level as int * (self.velocity as int) <= 127_000_000
                && level as int * (self.velocity as int) / 127 <= UNIT) by (nonlinear_arith)
                requires
                    0 <= level <= UNIT,
                    0 <= self.velocity < 128,
                    UNIT == 1_000_000,
            ;
        }
        let mag_u: u64 = (level as u64) * (self.velocity as u64) / 127;
        let mag = mag_u as i64;
        if self.phase > duty_cycle {
            mag
        } else {
            -mag
        }
    }

    /// Assign a note to this voice and start its envelope from zero. Used
    /// both for a free voice and for one being stolen mid-flight.
    pub fn trigger(&mut self, note: u8, velocity: u8, freq_millihertz: u64, age: u64)
        requires
            old(self).inv(),
            note < 128,
            velocity < 128,
            freq_millihertz <= MAX_FREQ_MILLIHERTZ,
        ensures
            final(self).inv(),
            final(self).phase == 0,
            final(self).note == Some(note),
            final(self).velocity == velocity,
            final(self).freq_millihertz == freq_millihertz,
            final(self).age == age,
            final(self).envelope@ == (EnvView {
                state: State::Attack,
                level: 0,
                ..old(self).envelope@
            }),
    {
        self.phase = 0;
        self.note = Some(note);
        self.velocity = velocity;
        self.freq_millihertz = freq_millihertz;
        self.age = age;
        self.envelope.trigger();
    }

    /// Start the envelope's release ramp from its current level.
    pub fn release(&mut self)
        requires
            old(self).inv(),
        ensures
            final(self).inv(),
            final(self).envelope@ == (EnvView {
                state: State::Release,
                release_start: old(self).envelope@.level,
                ..old(self).envelope@
            }),
            final(self).phase == old(self).phase,
            final(self).freq_millihertz == old(self).freq_millihertz,
            final(self).velocity == old(self).velocity,
            final(self).note == old(self).note,
            final(self).age == old(self).age,
    {
        self.envelope.release();
    }

    /// A voice is active exactly while its envelope is not idle.
    pub fn is_active(&self) -> (r: bool)
        ensures
            r == (self.envelope@.state != State::Idle),
    {
        !self.envelope.is_idle()
    }

    /// Drop the assigned note and force the envelope idle.
    pub fn reset(&mut self)
        requires
            old(self).inv(),
        ensures
            final(self).inv(),
            final(self).note is None,
            final(self).envelope@ == (EnvView {
                state: State::Idle,
                level: 0,
                ..old(self).envelope@
            }),
            final(self).phase == old(self).phase,
            final(self).freq_millihertz == old(self).freq_millihertz,
            final(self).velocity == old(self).velocity,
            final(self).age == old(self).age,
    {
        self.note = None;
        self.envelope.reset();
    }
}

} // verus!
