//! A note placed in time within a clip.

use vstd::prelude::*;

use crate::tick::Tick;

verus! {

/// A note event in clip-relative time: positions are offsets from the
/// clip's start, not absolute arrangement positions. Note and velocity
/// live in the 7-bit MIDI domain.
#[derive(Debug, Clone, Copy, PartialEq, Eq, Structural)]
pub struct NoteEvent {
    /// Offset from the clip's start.
    pub start_tick: Tick,
    /// A duration, not a position, so a raw count rather than a `Tick`.
    pub length_ticks: u64,
    pub note: u8,
    pub velocity: u8,
}

impl NoteEvent {
    /// Note and velocity fit the 7-bit MIDI domain.
    pub open spec fn wf(self) -> bool {
        self.note < 128 && self.velocity < 128
    }
}

} // verus!
