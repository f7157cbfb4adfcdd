//! The control transport against a real rtrb ring: the producer-side
//! send API and the audio-side drain.

use motif::control::{drain_scheduled, schedule_routed, EngineError, PlaybackControl};
use motif::events::{Event, MidiEvent, RoutedEvent};
use motif::id::TrackId;

#[test]
fn send_midi_delivers_in_order() {
    let (producer, mut consumer) = rtrb::RingBuffer::new(16);
    let mut control = PlaybackControl::new(producer);

    control
        .send_midi(TrackId(0), MidiEvent::NoteOn { note: 60, velocity: 100 })
        .unwrap();
    control
        .send_midi(TrackId(0), MidiEvent::NoteOff { note: 60 })
        .unwrap();

    let mut scheduled = Vec::new();
    drain_scheduled(&mut consumer, &mut scheduled, 16);

    assert_eq!(scheduled.len(), 2);
    assert_eq!(scheduled[0].sample_offset, 0);
    assert_eq!(scheduled[1].sample_offset, 0);
    assert_eq!(
        scheduled[0].event,
        Event::Midi(MidiEvent::NoteOn { note: 60, velocity: 100 })
    );
    assert_eq!(scheduled[1].event, Event::Midi(MidiEvent::NoteOff { note: 60 }));
}

#[test]
fn full_queue_reports_buffer_full() {
    let (producer, _consumer) = rtrb::RingBuffer::new(1);
    let mut control = PlaybackControl::new(producer);

    assert!(control
        .send_midi(TrackId(0), MidiEvent::NoteOn { note: 60, velocity: 100 })
        .is_ok());
    assert_eq!(
        control.send_midi(TrackId(0), MidiEvent::NoteOn { note: 62, velocity: 100 }),
        Err(EngineError::BufferFull)
    );
}

#[test]
fn drain_respects_its_bound() {
    let (producer, mut consumer) = rtrb::RingBuffer::new(8);
    let mut control = PlaybackControl::new(producer);
    for note in 60..64u8 {
        control
            .send_midi(TrackId(0), MidiEvent::NoteOn { note, velocity: 1 })
            .unwrap();
    }

    let mut scheduled = Vec::new();
    drain_scheduled(&mut consumer, &mut scheduled, 2);
    assert_eq!(scheduled.len(), 2);

    drain_scheduled(&mut consumer, &mut scheduled, 8);
    assert_eq!(scheduled.len(), 4);
}

#[test]
fn well_formed_event_is_scheduled_at_offset_zero() {
    let routed = RoutedEvent {
        track_id: TrackId(3),
        event: Event::Midi(MidiEvent::NoteOn { note: 60, velocity: 100 }),
    };
    let scheduled = schedule_routed(routed).unwrap();
    assert_eq!(scheduled.sample_offset, 0);
    assert_eq!(
        scheduled.event,
        Event::Midi(MidiEvent::NoteOn { note: 60, velocity: 100 })
    );
}

#[test]
fn malformed_event_is_discarded() {
    let note_too_big = RoutedEvent {
        track_id: TrackId(0),
        event: Event::Midi(MidiEvent::NoteOff { note: 128 }),
    };
    assert!(schedule_routed(note_too_big).is_none());

    let velocity_too_big = RoutedEvent {
        track_id: TrackId(0),
        event: Event::Midi(MidiEvent::NoteOn { note: 60, velocity: 200 }),
    };
    assert!(schedule_routed(velocity_too_big).is_none());
}

#[test]
fn drain_on_empty_queue_adds_nothing() {
    let (_producer, mut consumer) = rtrb::RingBuffer::<motif::events::RoutedEvent>::new(4);
    let mut scheduled = Vec::new();
    drain_scheduled(&mut consumer, &mut scheduled, 4);
    assert!(scheduled.is_empty());
}
