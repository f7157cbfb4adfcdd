//! An 8-voice polyphonic pulse-wave synthesizer implementing the audio
//! node capability: feed it NoteOn/NoteOff events through the graph
//! evaluator and it produces audio.
//!
//! ADSR parameters are shared; each voice copies them at trigger time, so
//! later parameter changes never retroactively alter a sounding voice.

use vstd::prelude::*;

use crate::buffer::AudioBuffer;
use crate::envelope::{env_tick_spec, EnvView, State};
use crate::events::{Event, MidiEvent};
use crate::node::{AudioNode, NodeCall};
use crate::sample::{sat_i64, scale, scaled, UNIT};
use crate::voice::{
    lemma_voice_frame_ok, phase_after, voice_frame, voice_frame_sample, Voice, VoiceView,
    MAX_FREQ_MILLIHERTZ,
};

verus! {

/// Size of the fixed voice pool.
pub const VOICE_COUNT: usize = 8;

/// Master output scaling (0.15 in `UNIT`ths), chosen to avoid clipping
/// under full eight-voice polyphony.
pub const MASTER_GAIN: u64 = 150_000;

// ---------------------------------------------------------------- pitch

/// Equal-temperament fundamental of each semitone of the lowest MIDI
/// octave, in millihertz (MIDI note 0 is C at about 8.176 Hz).
pub open spec fn semitone_base_millihertz(s: int) -> int {
    if s == 0 {
        8_176
    } else if s == 1 {
        8_662
    } else if s == 2 {
        9_177
    } else if s == 3 {
        9_723
    } else if s == 4 {
        10_301
    } else if s == 5 {
        10_913
    } else if s == 6 {
        11_562
    } else if s == 7 {
        12_250
    } else if s == 8 {
        12_978
    } else if s == 9 {
        13_750
    } else if s == 10 {
        14_568
    } else if s == 11 {
        15_434
    } else {
        0
    }
}

/// Frequency doubles every octave.
pub open spec fn octave_scale(k: int) -> int
    decreases k,
{
    if k <= 0 {
        1
    } else {
        2 * octave_scale(k - 1)
    }
}

/// The pitch of a MIDI note: its semitone's base frequency, doubled once
/// per octave above the lowest.
pub open spec fn note_freq_spec(note: u8) -> int {
    semitone_base_millihertz((note as int) % 12) * octave_scale((note as int) / 12)
}

proof fn lemma_octave_scale_pos(k: int)
    ensures
        octave_scale(k) >= 1,
    decreases k,
{
    if k > 0 {
        lemma_octave_scale_pos(k - 1);
    }
}

proof fn lemma_octave_scale_mono(k: int, j: int)
    requires
        k <= j,
    ensures
        octave_scale(k) <= octave_scale(j),
    decreases j - k,
{
    if k < j {
        lemma_octave_scale_mono(k, j - 1);
        if j > 0 {
            lemma_octave_scale_pos(j - 1);
        }
    }
}

proof fn lemma_octave_scale_bounds(k: int)
    requires
        0 <= k <= 10,
    ensures
        1 <= octave_scale(k) <= 1024,
{
    lemma_octave_scale_pos(k);
    lemma_octave_scale_mono(k, 10);
    assert(octave_scale(0) == 1);
    assert(octave_scale(1) == 2);
    assert(octave_scale(2) == 4);
    assert(octave_scale(3) == 8);
    assert(octave_scale(4) == 16);
    assert(octave_scale(5) == 32);
    assert(octave_scale(6) == 64);
    assert(octave_scale(7) == 128);
    assert(octave_scale(8) == 256);
    assert(octave_scale(9) == 512);
    assert(octave_scale(10) == 1024);
}

/// Integer equal-temperament pitch lookup.
pub fn note_frequency_millihertz(note: u8) -> (r: u64)
    requires
        note < 128,
    ensures
        r == note_freq_spec(note),
        0 < r <= MAX_FREQ_MILLIHERTZ,
{
    let s: u8 = note % 12;
    let oct: u8 = note / 12;
    let base: u64 = if s == 0 {
        8_176
    } else if s == 1 {
        8_662
    } else if s == 2 {
        9_177
    } else if s == 3 {
        9_723
    } else if s == 4 {
        10_301
    } else if s == 5 {
        10_913
    } else if s == 6 {
        11_562
    } else if s == 7 {
        12_250
    } else if s == 8 {
        12_978
    } else if s == 9 {
        13_750
    } else if s == 10 {
        14_568
    } else {
        15_434
    };
    proof {
        assert(s == note as int % 12 && oct == note as int / 12);
        assert(s < 12 && oct <= 10);
        assert(base == semitone_base_millihertz(s as int));
    }
    let mut f: u64 = base;
    let mut k: u8 = 0;
    while k < oct
        invariant
            k <= oct,
            oct <= 10,
            8_176 <= base <= 15_434,
            base == semitone_base_millihertz((note as int) % 12),
            f == base * octave_scale(k as int),
        decreases oct - k,
    {
        proof {
            lemma_octave_scale_bounds(k as int);
            assert(base * octave_scale(k as int) <= 15_434 * 1024 && base * octave_scale(
                k as int,
            ) >= 1) by (nonlinear_arith)
                requires
                    1 <= base <= 15_434,
                    1 <= octave_scale(k as int) <= 1024,
            ;
            assert(2 * (base * octave_scale(k as int)) == base * (2 * octave_scale(k as int)))
                by (nonlinear_arith);
            assert(octave_scale(k as int + 1) == 2 * octave_scale(k as int));
        }
        f = f * 2;
        k = k + 1;
    }
    proof {
        lemma_octave_scale_bounds(oct as int);
        assert(base * octave_scale(oct as int) <= 15_434 * 1024 && base * octave_scale(oct as int)
            >= 1) by (nonlinear_arith)
            requires
                1 <= base <= 15_434,
                1 <= octave_scale(oct as int) <= 1024,
        ;
    }
    f
}

// ---------------------------------------------------------------- views

/// Ghost image of the synthesizer.
pub struct PulseView {
    pub voices: Seq<VoiceView>,
    pub duty_cycle: int,
    pub attack_micros: int,
    pub decay_micros: int,
    pub sustain: int,
    pub release_micros: int,
    pub next_age: int,
}

impl PulseView {
    pub open spec fn inv(self) -> bool {
        &&& self.voices.len() == VOICE_COUNT
        &&& forall|k: int| 0 <= k < self.voices.len() ==> (#[trigger] self.voices[k]).inv()
        &&& 0 <= self.duty_cycle <= UNIT
        &&& 0 <= self.sustain <= UNIT
        &&& 0 <= self.attack_micros <= u64::MAX
        &&& 0 <= self.decay_micros <= u64::MAX
        &&& 0 <= self.release_micros <= u64::MAX
        &&& 0 <= self.next_age <= u64::MAX
    }
}

/// 8-voice polyphonic pulse-wave synthesizer.
pub struct Pulse {
    pub voices: Vec<Voice>,
    /// Fraction of each cycle spent high, in `UNIT`ths (`UNIT / 2` is a
    /// square wave).
    pub duty_cycle: u64,
    pub attack_micros: u64,
    pub decay_micros: u64,
    /// Sustain level in `UNIT`ths.
    pub sustain: i64,
    pub release_micros: u64,
    /// Global trigger counter stamped onto voices for steal ordering.
    pub next_age: u64,
    /// Ghost history of the calls made on this node.
    pub history: Ghost<Seq<NodeCall>>,
}

impl View for Pulse {
    type V = PulseView;

    open spec fn view(&self) -> PulseView {
        PulseView {
            voices: Seq::new(self.voices@.len(), |k: int| self.voices@[k]@),
            duty_cycle: self.duty_cycle as int,
            attack_micros: self.attack_micros as int,
            decay_micros: self.decay_micros as int,
            sustain: self.sustain as int,
            release_micros: self.release_micros as int,
            next_age: self.next_age as int,
        }
    }
}

// ------------------------------------------------------- frame rendering

/// All voices stepped by one frame.
pub open spec fn frame_voices(vs: Seq<VoiceView>, rate: int) -> Seq<VoiceView> {
    Seq::new(vs.len(), |k: int| voice_frame(vs[k], rate))
}

/// Sum of the first `k` voices' samples for one frame.
pub open spec fn frame_sum_prefix(vs: Seq<VoiceView>, duty: int, rate: int, k: int) -> int
    decreases k,
{
    if k <= 0 {
        0
    } else {
        frame_sum_prefix(vs, duty, rate, k - 1) + voice_frame_sample(vs[k - 1], duty, rate)
    }
}

/// The mono sample one frame produces: every voice's sample summed, then
/// scaled by the master gain.
pub open spec fn frame_out(vs: Seq<VoiceView>, duty: int, rate: int) -> i64 {
    sat_i64(scaled(frame_sum_prefix(vs, duty, rate, vs.len() as int) as i64, MASTER_GAIN))
}

/// Voice states after `n` rendered frames.
pub open spec fn run_voices(vs: Seq<VoiceView>, rate: int, n: nat) -> Seq<VoiceView>
    decreases n,
{
    if n == 0 {
        vs
    } else {
        run_voices(frame_voices(vs, rate), rate, (n - 1) as nat)
    }
}

/// Running one more frame is the same as stepping the already-run voices.
proof fn lemma_run_voices_snoc(vs: Seq<VoiceView>, rate: int, n: nat)
    ensures
        run_voices(vs, rate, n + 1) == frame_voices(run_voices(vs, rate, n), rate),
    decreases n,
{
    if n == 0 {
        assert(run_voices(vs, rate, 1) == run_voices(frame_voices(vs, rate), rate, 0));
        assert(run_voices(vs, rate, 0) == vs);
    } else {
        lemma_run_voices_snoc(frame_voices(vs, rate), rate, (n - 1) as nat);
        assert(run_voices(vs, rate, n + 1) == run_voices(frame_voices(vs, rate), rate, n));
        assert(run_voices(vs, rate, n) == run_voices(
            frame_voices(vs, rate),
            rate,
            (n - 1) as nat,
        ));
    }
}

/// A partial frame sum of well-formed voices stays within `k` full-scale
/// units.
proof fn lemma_frame_sum_prefix_bound(vs: Seq<VoiceView>, duty: int, rate: int, k: int)
    requires
        forall|j: int| 0 <= j < vs.len() ==> (#[trigger] vs[j]).inv(),
        0 <= duty <= UNIT,
        rate >= 1,
        0 <= k <= vs.len(),
    ensures
        -k * UNIT <= frame_sum_prefix(vs, duty, rate, k) <= k * UNIT,
    decreases k,
{
    if k > 0 {
        lemma_frame_sum_prefix_bound(vs, duty, rate, k - 1);
        lemma_voice_frame_ok(vs[k - 1], duty, rate);
    }
}

// ------------------------------------------------------- voice selection

/// The first idle voice at or after index `k`, if any.
pub open spec fn first_inactive_from(vs: Seq<VoiceView>, k: int) -> Option<int>
    decreases vs.len() - k,
{
    if k < 0 || k >= vs.len() {
        None
    } else if vs[k].env.state == State::Idle {
        Some(k)
    } else {
        first_inactive_from(vs, k + 1)
    }
}

/// The index of the minimum-age voice among the first `k`, ties broken by
/// the lowest index.
pub open spec fn oldest_upto(vs: Seq<VoiceView>, k: int) -> int
    decreases k,
{
    if k <= 1 {
        0
    } else {
        let m = oldest_upto(vs, k - 1);
        if vs[k - 1].age < vs[m].age {
            k - 1
        } else {
            m
        }
    }
}

/// Which voice a NoteOn lands on: the first inactive voice, or, with the
/// pool full, the oldest voice regardless of its state or pitch.
pub open spec fn steal_target(vs: Seq<VoiceView>) -> int {
    match first_inactive_from(vs, 0) {
        Some(i) => i,
        None => oldest_upto(vs, vs.len() as int),
    }
}

/// The steal policy picks the globally minimum age, and of equal ages the
/// lowest index: every voice before the chosen one is strictly younger at
/// heart (has a strictly greater age stamp).
pub proof fn lemma_oldest_upto_is_min(vs: Seq<VoiceView>, k: int)
    requires
        1 <= k <= vs.len(),
    ensures
        0 <= oldest_upto(vs, k) < k,
        forall|j: int| 0 <= j < k ==> (#[trigger] vs[j]).age >= vs[oldest_upto(vs, k)].age,
        forall|j: int| 0 <= j < oldest_upto(vs, k) ==> (#[trigger] vs[j]).age > vs[oldest_upto(
            vs,
            k,
        )].age,
    decreases k,
{
    if k > 1 {
        lemma_oldest_upto_is_min(vs, k - 1);
    }
}

/// If every voice before `k` is active, the search for an inactive voice
/// starting at zero lands at or after `k`.
proof fn lemma_first_inactive_skip(vs: Seq<VoiceView>, k: int)
    requires
        0 <= k <= vs.len(),
        forall|j: int| 0 <= j < k ==> (#[trigger] vs[j]).env.state != State::Idle,
    ensures
        first_inactive_from(vs, 0) == first_inactive_from(vs, k),
    decreases k,
{
    if k > 0 {
        lemma_first_inactive_skip(vs, k - 1);
        assert(first_inactive_from(vs, k - 1) == first_inactive_from(vs, k));
    }
}

// ------------------------------------------------------- event semantics

/// The synthesizer after a NoteOn: the chosen voice is re-triggered with
/// the incoming note, velocity and pitch, stamped with the current age,
/// and given a copy of the current shared ADSR parameters; the age
/// counter then advances (saturating at its limit).
pub open spec fn note_on_spec(p: PulseView, note: u8, velocity: u8) -> PulseView {
    let i = steal_target(p.voices);
    let v0 = p.voices[i];
    let triggered = VoiceView {
        phase: 0,
        freq_millihertz: note_freq_spec(note),
        velocity: velocity as int,
        env: EnvView {
            state: State::Attack,
            level: 0,
            attack_micros: p.attack_micros,
            decay_micros: p.decay_micros,
            sustain: p.sustain,
            release_micros: p.release_micros,
            release_start: v0.env.release_start,
        },
        note: Some(note),
        age: p.next_age,
    };
    PulseView {
        voices: p.voices.update(i, triggered),
        next_age: if p.next_age < u64::MAX {
            p.next_age + 1
        } else {
            p.next_age
        },
        ..p
    }
}

/// What a NoteOff does to one voice: a voice holding the note and not
/// already releasing begins its release from its current level; any other
/// voice is untouched.
pub open spec fn note_off_voice(v: VoiceView, note: u8) -> VoiceView {
    if v.note == Some(note) && v.env.state != State::Release {
        VoiceView { env: EnvView { state: State::Release, release_start: v.env.level, ..v.env }, ..v }
    } else {
        v
    }
}

/// The synthesizer after a NoteOff: every voice holding the note and not
/// already releasing begins its release from its current level (several
/// voices can release at once if the pitch was triggered repeatedly).
pub open spec fn note_off_spec(p: PulseView, note: u8) -> PulseView {
    PulseView { voices: Seq::new(p.voices.len(), |k: int| note_off_voice(p.voices[k], note)), ..p }
}

/// What a reset does to one voice: unassigned and idle at level zero.
pub open spec fn reset_voice(v: VoiceView) -> VoiceView {
    VoiceView { note: None, env: EnvView { state: State::Idle, level: 0, ..v.env }, ..v }
}

/// The synthesizer after a reset: every voice unassigned and idle, and the
/// age counter back at zero.
pub open spec fn reset_spec(p: PulseView) -> PulseView {
    PulseView {
        voices: Seq::new(p.voices.len(), |k: int| reset_voice(p.voices[k])),
        next_age: 0,
        ..p
    }
}

impl Pulse {
    /// A fresh synthesizer: eight silent voices, a square wave, and the
    /// default ADSR of 10 ms attack, 100 ms decay, 0.7 sustain, 150 ms
    /// release.
    pub fn new() -> (r: Pulse)
        ensures
            r@.inv(),
            r@.duty_cycle == UNIT / 2,
            r@.attack_micros == 10_000,
            r@.decay_micros == 100_000,
            r@.sustain == 700_000,
            r@.release_micros == 150_000,
            r@.next_age == 0,
            r.history@ == Seq::<NodeCall>::empty(),
            forall|k: int|
                0 <= k < VOICE_COUNT ==> (#[trigger] r@.voices[k]).env.state == State::Idle
                    && r@.voices[k].note is None && r@.voices[k].age == 0,
    {
        let mut voices: Vec<Voice> = Vec::new();
        let mut k: usize = 0;
        while k < VOICE_COUNT
            invariant
                k <= VOICE_COUNT,
                voices@.len() == k,
                forall|j: int|
                    0 <= j < k ==> (#[trigger] voices@[j])@.inv() && voices@[j]@.env.state
                        == State::Idle && voices@[j]@.note is None && voices@[j]@.age == 0,
            decreases VOICE_COUNT - k,
        {
            voices.push(Voice::new());
            k = k + 1;
        }
        Pulse {
            voices,
            duty_cycle: 500_000,
            attack_micros: 10_000,
            decay_micros: 100_000,
            sustain: 700_000,
            release_micros: 150_000,
            next_age: 0,
            history: Ghost(Seq::empty()),
        }
    }

    /// Render frames `start..end`: each frame sums every active voice's
    /// enveloped pulse sample, scales the sum by the master gain, and
    /// writes the identical value to channels 0 and 1 (mono duplicated to
    /// stereo). Frames outside the range, and channels beyond the first
    /// two, are untouched.
    pub fn render_span(
        &mut self,
        output: &mut AudioBuffer,
        start: usize,
        end: usize,
        sample_rate: u32,
    )
        requires
            old(self)@.inv(),
            old(output).wf(),
            old(output).channel_count() >= 2,
            start <= end,
            end as int <= old(output).frame_count(),
            sample_rate >= 1,
        ensures
            final(self)@.inv(),
            final(self)@ == (PulseView {
                voices: run_voices(old(self)@.voices, sample_rate as int, (end - start) as nat),
                ..old(self)@
            }),
            final(self).history@ == old(self).history@,
            final(output).wf(),
            final(output).shape_preserved(old(output)),
            forall|i: int|
                start <= i < end ==> #[trigger] final(output).chans()[0][i] == frame_out(
                    run_voices(old(self)@.voices, sample_rate as int, (i - start) as nat),
                    old(self)@.duty_cycle,
                    sample_rate as int,
                ),
            forall|i: int|
                start <= i < end ==> #[trigger] final(output).chans()[1][i]
                    == final(output).chans()[0][i],
            forall|c: int, i: int|
                0 <= c < final(output).channel_count() && 0 <= i < final(output).capacity() && !(
                start <= i < end && c < 2) ==> #[trigger] final(output).chans()[c][i]
                    == old(output).chans()[c][i],
    {
        let duty = self.duty_cycle;
        let ghost vs_init = self@.voices;
        let ghost rate = sample_rate as int;
        let mut frame = start;
        while frame < end
            invariant
                self@.inv(),
                start <= frame <= end,
                output.wf(),
                output.channel_count() >= 2,
                output.shape_preserved(old(output)),
                end as int <= output.frame_count(),
                sample_rate >= 1,
                rate == sample_rate as int,
                duty == self.duty_cycle,
                vs_init == old(self)@.voices,
                self@ == (PulseView {
                    voices: run_voices(vs_init, rate, (frame - start) as nat),
                    ..old(self)@
                }),
                self.history@ == old(self).history@,
                forall|i: int|
                    start <= i < frame ==> #[trigger] output.chans()[0][i] == frame_out(
                        run_voices(vs_init, rate, (i - start) as nat),
                        old(self)@.duty_cycle,
                        rate,
                    ),
                forall|i: int|
                    start <= i < frame ==> #[trigger] output.chans()[1][i]
                        == output.chans()[0][i],
                forall|c: int, i: int|
                    0 <= c < output.channel_count() && 0 <= i < output.capacity() && !(start <= i
                        < frame && c < 2) ==> #[trigger] output.chans()[c][i] == old(
                        output,
                    ).chans()[c][i],
            decreases end - frame,
        {
            let ghost vs0 = self@.voices;
            let mut sum: i64 = 0;
            let mut k: usize = 0;
            while k < VOICE_COUNT
                invariant
                    k <= VOICE_COUNT,
                    self.voices@.len() == VOICE_COUNT,
                    sample_rate >= 1,
                    rate == sample_rate as int,
                    0 <= duty as int <= UNIT,
                    vs0.len() == VOICE_COUNT,
                    forall|j: int| 0 <= j < VOICE_COUNT ==> (#[trigger] vs0[j]).inv(),
                    forall|j: int|
                        k <= j < VOICE_COUNT ==> #[trigger] self@.voices[j] == vs0[j],
                    forall|j: int|
                        0 <= j < k ==> #[trigger] self@.voices[j] == voice_frame(vs0[j], rate),
                    sum == frame_sum_prefix(vs0, duty as int, rate, k as int),
                    -(k as int) * (UNIT as int) <= sum as int <= (k as int) * (UNIT as int),
                    duty == self.duty_cycle,
                    self@.duty_cycle == old(self)@.duty_cycle,
                    self@.attack_micros == old(self)@.attack_micros,
                    self@.decay_micros == old(self)@.decay_micros,
                    self@.sustain == old(self)@.sustain,
                    self@.release_micros == old(self)@.release_micros,
                    self@.next_age == old(self)@.next_age,
                    self.history@ == old(self).history@,
                decreases VOICE_COUNT - k,
            {
                proof {
                    lemma_voice_frame_ok(vs0[k as int], duty as int, rate);
                    assert(self@.voices[k as int] == self.voices@[k as int]@);
                    assert(self@.voices[k as int] == vs0[k as int]);
                    assert(vs0[k as int].inv());
                }
                let ghost voices_prior = self.voices@;
                let ghost view_prior = self@.voices;
                let active = self.voices[k].is_active();
                if active {
                    let s = self.voices[k].render(duty, sample_rate);
                    proof {
                        let vprev = vs0[k as int];
                        let vnew = self.voices@[k as int]@;
                        assert(self@.voices[k as int] == vnew);
                        assert(vnew.phase == phase_after(
                            vprev.phase,
                            vprev.freq_millihertz,
                            rate,
                        ));
                        assert(vnew.env == env_tick_spec(vprev.env, rate));
                        assert(vnew == voice_frame(vprev, rate));
                        assert(s as int == voice_frame_sample(vprev, duty as int, rate));
                        assert forall|j: int|
                            0 <= j < VOICE_COUNT && j != k as int implies #[trigger] self@.voices[j]
                            == view_prior[j] by {
                            assert(self.voices@[j] == voices_prior[j]);
                            assert(self@.voices[j] == self.voices@[j]@);
                            assert(view_prior[j] == voices_prior[j]@);
                        }
                    }
                    sum = sum + s;
                } else {
                    proof {
                        assert(voice_frame(vs0[k as int], rate) == vs0[k as int]);
                        assert(voice_frame_sample(vs0[k as int], duty as int, rate) == 0);
                    }
                }
                k = k + 1;
            }
            proof {
                assert(self@.voices =~= frame_voices(vs0, rate));
                lemma_frame_sum_prefix_bound(vs0, duty as int, rate, VOICE_COUNT as int);
            }
            let out = scale(sum, MASTER_GAIN);
            proof {
                assert(out == frame_out(vs0, duty as int, rate));
            }
            output.set_sample(0, frame, out);
            output.set_sample(1, frame, out);
            proof {
                lemma_run_voices_snoc(vs_init, rate, (frame - start) as nat);
                assert(((frame + 1) - start) as nat == (frame - start) as nat + 1);
                assert(self@.voices == run_voices(vs_init, rate, ((frame + 1) - start) as nat));
            }
            frame = frame + 1;
        }
    }

    /// Apply one event. A NoteOn triggers the first inactive voice — or,
    /// with the whole pool sounding, steals the voice with the minimum age
    /// (lowest index on ties) regardless of its pitch or stage — and
    /// copies the current shared ADSR into it. A NoteOff releases every
    /// voice holding that note that is not already releasing.
    pub fn apply_event(&mut self, event: &Event)
        requires
            old(self)@.inv(),
            event.wf(),
        ensures
            final(self)@.inv(),
            final(self).history@ == old(self).history@,
            (match *event {
                Event::Midi(MidiEvent::NoteOn { note, velocity }) => final(self)@ == note_on_spec(
                    old(self)@,
                    note,
                    velocity,
                ),
                Event::Midi(MidiEvent::NoteOff { note }) => final(self)@ == note_off_spec(
                    old(self)@,
                    note,
                ),
            }),
    {
        match event {
            Event::Midi(midi) => match midi {
                MidiEvent::NoteOn { note, velocity } => {
                    let note = *note;
                    let velocity = *velocity;
                    let ghost vs = self@.voices;
                    let mut chosen: usize = 0;
                    let mut found = false;
                    let mut k: usize = 0;
                    while k < VOICE_COUNT
                        invariant
                            k <= VOICE_COUNT,
                            self.voices@.len() == VOICE_COUNT,
                            vs == self@.voices,
                            vs.len() == VOICE_COUNT,
                            found ==> chosen < k,
                            !found ==> forall|j: int|
                                0 <= j < k ==> (#[trigger] vs[j]).env.state != State::Idle,
                            found ==> first_inactive_from(vs, 0) == Some(chosen as int),
                        decreases VOICE_COUNT - k,
                    {
                        if !found {
                            let active = self.voices[k].is_active();
                            if !active {
                                chosen = k;
                                found = true;
                                proof {
                                    assert(self@.voices[k as int] == self.voices@[k as int]@);
                                    lemma_first_inactive_skip(vs, k as int);
                                    assert(first_inactive_from(vs, k as int) == Some(k as int));
                                }
                            } else {
                                proof {
                                    assert(self@.voices[k as int] == self.voices@[k as int]@);
                                }
                            }
                        }
                        k = k + 1;
                    }
                    if !found {
                        proof {
                            lemma_first_inactive_skip(vs, VOICE_COUNT as int);
                        }
                        let mut best: usize = 0;
                        let mut k2: usize = 1;
                        while k2 < VOICE_COUNT
                            invariant
                                1 <= k2 <= VOICE_COUNT,
                                best < k2,
                                self.voices@.len() == VOICE_COUNT,
                                vs == self@.voices,
                                vs.len() == VOICE_COUNT,
                                best as int == oldest_upto(vs, k2 as int),
                            decreases VOICE_COUNT - k2,
                        {
                            proof {
                                assert(self@.voices[k2 as int] == self.voices@[k2 as int]@);
                                assert(self@.voices[best as int] == self.voices@[best as int]@);
                            }
                            if self.voices[k2].age < self.voices[best].age {
                                best = k2;
                            }
                            k2 = k2 + 1;
                        }
                        chosen = best;
                    }
                    proof {
                        assert(chosen as int == steal_target(vs));
                        assert(self@.voices[chosen as int] == self.voices@[chosen as int]@);
                        assert(vs[chosen as int].inv());
                    }
                    let freq = note_frequency_millihertz(note);
                    let attack = self.attack_micros;
                    let decay = self.decay_micros;
                    let sustain = self.sustain;
                    let release = self.release_micros;
                    let age = self.next_age;
                    let ghost voices_prior = self.voices@;
                    self.voices[chosen].trigger(note, velocity, freq, age);
                    let ghost voices_mid = self.voices@;
                    self.voices[chosen].envelope.adsr(attack, decay, sustain, release);
                    self.next_age = if self.next_age < u64::MAX {
                        self.next_age + 1
                    } else {
                        self.next_age
                    };
                    proof {
                        let c = chosen as int;
                        let target = note_on_spec(old(self)@, note, velocity);
                        assert(self@.voices[c] == self.voices@[c]@);
                        assert(self@.voices[c] == target.voices[c]);
                        assert forall|j: int|
                            0 <= j < VOICE_COUNT && j != c implies #[trigger] self@.voices[j]
                            == vs[j] by {
                            assert(self.voices@[j] == voices_mid[j]);
                            assert(voices_mid[j] == voices_prior[j]);
                            assert(self@.voices[j] == self.voices@[j]@);
                            assert(vs[j] == voices_prior[j]@);
                        }
                        assert(self@.voices =~= target.voices);
                        assert(self@ == target);
                    }
                },
                MidiEvent::NoteOff { note } => {
                    let note = *note;
                    let ghost vs = self@.voices;
                    let mut k: usize = 0;
                    while k < VOICE_COUNT
                        invariant
                            k <= VOICE_COUNT,
                            self.voices@.len() == VOICE_COUNT,
                            vs.len() == VOICE_COUNT,
                            forall|j: int| 0 <= j < VOICE_COUNT ==> (#[trigger] vs[j]).inv(),
                            forall|j: int|
                                k <= j < VOICE_COUNT ==> #[trigger] self@.voices[j] == vs[j],
                            forall|j: int|
                                0 <= j < k ==> #[trigger] self@.voices[j] == note_off_voice(
                                    vs[j],
                                    note,
                                ),
                            self@.duty_cycle == old(self)@.duty_cycle,
                            self@.attack_micros == old(self)@.attack_micros,
                            self@.decay_micros == old(self)@.decay_micros,
                            self@.sustain == old(self)@.sustain,
                            self@.release_micros == old(self)@.release_micros,
                            self@.next_age == old(self)@.next_age,
                            self.history@ == old(self).history@,
                        decreases VOICE_COUNT - k,
                    {
                        proof {
                            assert(self@.voices[k as int] == self.voices@[k as int]@);
                            assert(self@.voices[k as int] == vs[k as int]);
                        }
                        let ghost voices_prior = self.voices@;
                        let ghost view_prior = self@.voices;
                        let matches_note = match self.voices[k].note {
                            Some(m) => m == note,
                            None => false,
                        };
                        if matches_note && !self.voices[k].envelope.is_releasing() {
                            self.voices[k].release();
                            proof {
                                assert(self@.voices[k as int] == self.voices@[k as int]@);
                                assert(self@.voices[k as int] == note_off_voice(
                                    vs[k as int],
                                    note,
                                ));
                                assert forall|j: int|
                                    0 <= j < VOICE_COUNT && j != k as int implies #[trigger] self@
                                    .voices[j] == view_prior[j] by {
                                    assert(self.voices@[j] == voices_prior[j]);
                                    assert(self@.voices[j] == self.voices@[j]@);
                                    assert(view_prior[j] == voices_prior[j]@);
                                }
                            }
                        } else {
                            proof {
                                assert(self@.voices[k as int] == note_off_voice(
                                    vs[k as int],
                                    note,
                                ));
                            }
                        }
                        k = k + 1;
                    }
                    proof {
                        assert(self@.voices =~= note_off_spec(old(self)@, note).voices);
                        assert(self@ == note_off_spec(old(self)@, note));
                    }
                },
            },
        }
    }

    /// Return every voice to the idle baseline (note cleared, envelope
    /// forced idle) and restart the age counter.
    pub fn clear(&mut self)
        requires
            old(self)@.inv(),
        ensures
            final(self)@.inv(),
            final(self)@ == reset_spec(old(self)@),
            final(self).history@ == old(self).history@,
    {
        let ghost vs = self@.voices;
        let mut k: usize = 0;
        while k < VOICE_COUNT
            invariant
                k <= VOICE_COUNT,
                self.voices@.len() == VOICE_COUNT,
                vs.len() == VOICE_COUNT,
                forall|j: int| 0 <= j < VOICE_COUNT ==> (#[trigger] vs[j]).inv(),
                forall|j: int| k <= j < VOICE_COUNT ==> #[trigger] self@.voices[j] == vs[j],
                forall|j: int|
                    0 <= j < k ==> #[trigger] self@.voices[j] == reset_voice(vs[j]),
                self@.duty_cycle == old(self)@.duty_cycle,
                self@.attack_micros == old(self)@.attack_micros,
                self@.decay_micros == old(self)@.decay_micros,
                self@.sustain == old(self)@.sustain,
                self@.release_micros == old(self)@.release_micros,
                self.history@ == old(self).history@,
            decreases VOICE_COUNT - k,
        {
            proof {
                assert(self@.voices[k as int] == self.voices@[k as int]@);
                assert(self@.voices[k as int] == vs[k as int]);
            }
            let ghost voices_prior = self.voices@;
            let ghost view_prior = self@.voices;
            self.voices[k].reset();
            proof {
                assert(self@.voices[k as int] == self.voices@[k as int]@);
                assert(self@.voices[k as int] == reset_voice(vs[k as int]));
                assert forall|j: int|
                    0 <= j < VOICE_COUNT && j != k as int implies #[trigger] self@.voices[j]
                    == view_prior[j] by {
                    assert(self.voices@[j] == voices_prior[j]);
                    assert(self@.voices[j] == self.voices@[j]@);
                    assert(view_prior[j] == voices_prior[j]@);
                }
            }
            k = k + 1;
        }
        let ghost voices_done = self@.voices;
        self.next_age = 0;
        proof {
            assert forall|j: int|
                0 <= j < VOICE_COUNT implies #[trigger] voices_done[j] == reset_spec(
                old(self)@,
            ).voices[j] by {
                assert(voices_done[j] == reset_voice(vs[j]));
                assert(reset_spec(old(self)@).voices[j] == reset_voice(old(self)@.voices[j]));
            }
            assert forall|j: int|
                0 <= j < VOICE_COUNT implies #[trigger] self@.voices[j] == voices_done[j] by {
                assert(self@.voices[j] == self.voices@[j]@);
            }
            assert(self@.voices =~= reset_spec(old(self)@).voices);
            assert(self@ == reset_spec(old(self)@));
        }
    }
}

impl Default for Pulse {
    /// Same as `Pulse::new`.
    fn default() -> (r: Pulse)
        ensures
            r@.inv(),
            r.history@ == Seq::<NodeCall>::empty(),
            r@.next_age == 0,
    {
        Pulse::new()
    }
}

impl AudioNode for Pulse {
    open spec fn inv(&self) -> bool {
        self@.inv()
    }

    open spec fn calls(&self) -> Seq<NodeCall> {
        self.history@
    }

    fn render(
        &mut self,
        inputs: &[&AudioBuffer],
        output: &mut AudioBuffer,
        start: usize,
        end: usize,
        sample_rate: u32,
    ) {
        self.render_span(output, start, end, sample_rate);
        proof {
            self.history@ = self.history@.push(
                NodeCall::Render { start: start as int, end: end as int },
            );
        }
    }

    fn handle_event(&mut self, event: &Event) {
        self.apply_event(event);
        proof {
            self.history@ = self.history@.push(NodeCall::Apply { event: *event });
        }
    }

    fn reset(&mut self) {
        self.clear();
        proof {
            self.history@ = self.history@.push(NodeCall::Reset);
        }
    }
}

} // verus!
