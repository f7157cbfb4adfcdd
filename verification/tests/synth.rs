//! End-to-end synthesizer scenarios at 48 kHz stereo. Samples are exact
//! fixed-point integers, so "silent" means exactly zero.

use motif::buffer::AudioBuffer;
use motif::events::{Event, MidiEvent, ScheduledEvent};
use motif::graph::evaluate_node;
use motif::node::AudioNode;
use motif::synth::{note_frequency_millihertz, Pulse};

const SAMPLE_RATE: u32 = 48000;

fn make_synth() -> Pulse {
    Pulse::new()
}

fn note_on(offset: u32, note: u8) -> ScheduledEvent {
    ScheduledEvent { sample_offset: offset, event: Event::Midi(MidiEvent::NoteOn { note, velocity: 127 }) }
}

fn note_off(offset: u32, note: u8) -> ScheduledEvent {
    ScheduledEvent { sample_offset: offset, event: Event::Midi(MidiEvent::NoteOff { note }) }
}

fn has_signal(buf: &AudioBuffer, range: std::ops::Range<usize>) -> bool {
    buf.channel(0)[range].iter().any(|&s| s != 0)
}

fn is_silent(buf: &AudioBuffer, range: std::ops::Range<usize>) -> bool {
    buf.channel(0)[range].iter().all(|&s| s == 0)
}

const C4: u8 = 60;
const E4: u8 = 64;
const G4: u8 = 67;
const A4: u8 = 69;
const D4: u8 = 62;
const C3: u8 = 48;
const D3: u8 = 50;
const E3: u8 = 52;
const F3: u8 = 53;
const G3: u8 = 55;
const A3: u8 = 57;
const B3: u8 = 59;

#[test]
fn note_on_produces_output() {
    let mut synth = make_synth();
    let mut output = AudioBuffer::new(2, 256);
    output.prepare(256);

    let events = [note_on(0, C4)];
    evaluate_node(&mut synth, &[], &mut output, &events, SAMPLE_RATE);

    assert!(has_signal(&output, 0..256));
}

#[test]
fn no_events_is_silent() {
    let mut synth = make_synth();
    let mut output = AudioBuffer::new(2, 256);
    output.prepare(256);

    evaluate_node(&mut synth, &[], &mut output, &[], SAMPLE_RATE);

    assert!(is_silent(&output, 0..256));
}

#[test]
fn note_off_releases_to_silence() {
    let mut synth = make_synth();
    let mut output = AudioBuffer::new(2, 1024);

    // NoteOn, render a bit.
    output.prepare(512);
    let events = [note_on(0, C4)];
    evaluate_node(&mut synth, &[], &mut output, &events, SAMPLE_RATE);
    assert!(has_signal(&output, 0..512));

    // NoteOff, then render enough for the 0.15 s release (7200 samples).
    output.prepare(1024);
    let events = [note_off(0, C4)];
    evaluate_node(&mut synth, &[], &mut output, &events, SAMPLE_RATE);

    for _ in 0..10 {
        output.prepare(1024);
        evaluate_node(&mut synth, &[], &mut output, &[], SAMPLE_RATE);
    }

    assert!(is_silent(&output, 0..1024));
}

#[test]
fn polyphony_three_notes() {
    let mut synth = make_synth();
    let mut output = AudioBuffer::new(2, 256);
    output.prepare(256);

    let events = [note_on(0, C4), note_on(0, E4), note_on(0, G4)];
    evaluate_node(&mut synth, &[], &mut output, &events, SAMPLE_RATE);

    let active = synth.voices.iter().filter(|v| v.is_active()).count();
    assert_eq!(active, 3);
}

#[test]
fn voice_steal_at_capacity() {
    let mut synth = make_synth();
    let mut output = AudioBuffer::new(2, 256);
    output.prepare(256);

    // Fill all 8 voices.
    let notes = [C3, D3, E3, F3, G3, A3, B3, C4];
    let events: Vec<_> = notes.iter().map(|&n| note_on(0, n)).collect();
    evaluate_node(&mut synth, &[], &mut output, &events, SAMPLE_RATE);
    assert_eq!(synth.voices.iter().filter(|v| v.is_active()).count(), 8);

    // The 9th note steals the oldest voice (the one playing C3).
    output.prepare(256);
    let events = [note_on(0, D4)];
    evaluate_node(&mut synth, &[], &mut output, &events, SAMPLE_RATE);

    assert_eq!(synth.voices.iter().filter(|v| v.is_active()).count(), 8);
    assert!(!synth.voices.iter().any(|v| v.note == Some(C3)));
}

#[test]
fn reset_silences_all() {
    let mut synth = make_synth();
    let mut output = AudioBuffer::new(2, 256);
    output.prepare(256);

    let events = [note_on(0, C4), note_on(0, E4)];
    evaluate_node(&mut synth, &[], &mut output, &events, SAMPLE_RATE);
    assert!(has_signal(&output, 0..256));

    synth.reset();

    output.prepare(256);
    evaluate_node(&mut synth, &[], &mut output, &[], SAMPLE_RATE);
    assert!(is_silent(&output, 0..256));
}

#[test]
fn output_is_mono_both_channels_equal() {
    let mut synth = make_synth();
    let mut output = AudioBuffer::new(2, 256);
    output.prepare(256);

    let events = [note_on(0, A4)];
    evaluate_node(&mut synth, &[], &mut output, &events, SAMPLE_RATE);

    assert_eq!(output.channel(0), output.channel(1));
}

#[test]
fn mid_buffer_note_on_silent_before_event() {
    let mut synth = make_synth();
    let mut output = AudioBuffer::new(2, 256);
    output.prepare(256);

    let events = [note_on(128, C4)];
    evaluate_node(&mut synth, &[], &mut output, &events, SAMPLE_RATE);

    assert!(is_silent(&output, 0..128));
    assert!(has_signal(&output, 128..256));
}

#[test]
fn concert_pitch_is_exact() {
    // A4 doubles up from the lowest octave's 13.750 Hz to exactly 440 Hz.
    assert_eq!(note_frequency_millihertz(A4), 440_000);
    // C4 is five octaves above the lowest C.
    assert_eq!(note_frequency_millihertz(C4), 8_176 << 5);
    // The highest MIDI note stays within the frequency bound.
    assert_eq!(note_frequency_millihertz(127), 12_250 << 10);
}

#[test]
fn steal_reuses_first_inactive_voice() {
    let mut synth = make_synth();
    let mut output = AudioBuffer::new(2, 64);
    output.prepare(64);

    let events = [note_on(0, C4)];
    evaluate_node(&mut synth, &[], &mut output, &events, SAMPLE_RATE);

    // The first voice took the note; the rest are untouched.
    assert_eq!(synth.voices[0].note, Some(C4));
    assert!(synth.voices[0].is_active());
    assert!(!synth.voices[1].is_active());
}
