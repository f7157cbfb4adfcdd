//! The evaluator's slicing, observed through a recording node whose
//! executable log provably mirrors the ghost call history.

use motif::buffer::AudioBuffer;
use motif::events::{Event, MidiEvent, ScheduledEvent};
use motif::graph::evaluate_node;
use motif::node::{CallRecorder, RecordedCall};

const SAMPLE_RATE: u32 = 44100;

fn render(start: usize, end: usize) -> RecordedCall {
    RecordedCall::Render { start, end }
}

fn make_event(offset: u32) -> ScheduledEvent {
    ScheduledEvent {
        sample_offset: offset,
        event: Event::Midi(MidiEvent::NoteOn { note: 60, velocity: 127 }),
    }
}

#[test]
fn no_events_renders_full_buffer() {
    let mut node = CallRecorder::new();
    let mut output = AudioBuffer::new(2, 8);
    output.prepare(8);

    evaluate_node(&mut node, &[], &mut output, &[], SAMPLE_RATE);

    assert_eq!(node.log, vec![render(0, 8)]);
}

#[test]
fn single_event_mid_buffer() {
    let mut node = CallRecorder::new();
    let mut output = AudioBuffer::new(2, 8);
    output.prepare(8);
    let events = [make_event(4)];

    evaluate_node(&mut node, &[], &mut output, &events, SAMPLE_RATE);

    assert_eq!(node.log, vec![render(0, 4), RecordedCall::Apply, render(4, 8)]);
}

#[test]
fn event_at_offset_zero_no_empty_render() {
    let mut node = CallRecorder::new();
    let mut output = AudioBuffer::new(2, 8);
    output.prepare(8);
    let events = [make_event(0)];

    evaluate_node(&mut node, &[], &mut output, &events, SAMPLE_RATE);

    assert_eq!(node.log, vec![RecordedCall::Apply, render(0, 8)]);
}

#[test]
fn event_at_last_sample() {
    let mut node = CallRecorder::new();
    let mut output = AudioBuffer::new(2, 8);
    output.prepare(8);
    let events = [make_event(7)];

    evaluate_node(&mut node, &[], &mut output, &events, SAMPLE_RATE);

    assert_eq!(node.log, vec![render(0, 7), RecordedCall::Apply, render(7, 8)]);
}

#[test]
fn event_at_total_frames_no_trailing_render() {
    let mut node = CallRecorder::new();
    let mut output = AudioBuffer::new(2, 8);
    output.prepare(8);
    let events = [make_event(8)];

    evaluate_node(&mut node, &[], &mut output, &events, SAMPLE_RATE);

    assert_eq!(node.log, vec![render(0, 8), RecordedCall::Apply]);
}

#[test]
fn two_events_same_offset_no_empty_render_between() {
    let mut node = CallRecorder::new();
    let mut output = AudioBuffer::new(2, 8);
    output.prepare(8);
    let events = [make_event(4), make_event(4)];

    evaluate_node(&mut node, &[], &mut output, &events, SAMPLE_RATE);

    assert_eq!(
        node.log,
        vec![render(0, 4), RecordedCall::Apply, RecordedCall::Apply, render(4, 8)]
    );
}

#[test]
fn multiple_events_spread_across_buffer() {
    let mut node = CallRecorder::new();
    let mut output = AudioBuffer::new(2, 8);
    output.prepare(8);
    let events = [make_event(2), make_event(5), make_event(7)];

    evaluate_node(&mut node, &[], &mut output, &events, SAMPLE_RATE);

    assert_eq!(
        node.log,
        vec![
            render(0, 2),
            RecordedCall::Apply,
            render(2, 5),
            RecordedCall::Apply,
            render(5, 7),
            RecordedCall::Apply,
            render(7, 8),
        ]
    );
}

#[test]
fn zero_frame_buffer_no_events_no_render() {
    let mut node = CallRecorder::new();
    let mut output = AudioBuffer::new(2, 8);
    output.prepare(0);

    evaluate_node(&mut node, &[], &mut output, &[], SAMPLE_RATE);

    assert_eq!(node.log, vec![]);
}
