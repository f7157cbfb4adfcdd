//! The event vocabulary: what happened (`Event`), what happened on which
//! track (`RoutedEvent`), and what happens at which sample of the current
//! buffer (`ScheduledEvent`).

use vstd::prelude::*;

use crate::id::TrackId;

verus! {

/// A MIDI note message. Notes and velocities live in the standard 7-bit
/// domain `0..=127`.
#[derive(Debug, Clone, Copy, PartialEq, Eq, Structural)]
pub enum MidiEvent {
    NoteOn { note: u8, velocity: u8 },
    NoteOff { note: u8 },
}

impl MidiEvent {
    /// Note and velocity fit the 7-bit MIDI domain.
    pub open spec fn wf(self) -> bool {
        match self {
            MidiEvent::NoteOn { note, velocity } => note < 128 && velocity < 128,
            MidiEvent::NoteOff { note } => note < 128,
        }
    }
}

/// Unscheduled event: what happened, not when. Nodes see these through
/// `handle_event`; timing is stripped by the graph evaluator.
#[derive(Debug, Clone, Copy, PartialEq, Eq, Structural)]
pub enum Event {
    Midi(MidiEvent),
}

impl Event {
    pub open spec fn wf(self) -> bool {
        match self {
            Event::Midi(m) => m.wf(),
        }
    }
}

/// An event bound for a particular track; used only before scheduling,
/// carried by the control transport.
#[derive(Debug, Clone, Copy, PartialEq, Eq, Structural)]
pub struct RoutedEvent {
    pub track_id: TrackId,
    pub event: Event,
}

/// An event with a sample-accurate position within the *current* buffer:
/// `sample_offset` is a buffer index in `0..=frames`, not a musical time.
/// Lists handed to the evaluator must already be sorted by offset.
#[derive(Debug, Clone, Copy, PartialEq, Eq, Structural)]
pub struct ScheduledEvent {
    pub sample_offset: u32,
    pub event: Event,
}

} // verus!
