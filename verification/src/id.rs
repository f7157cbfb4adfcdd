//! Global, monotonic ID allocation. IDs are never reused within a project,
//! so references held elsewhere (e.g. by an undo history) stay valid.

use vstd::prelude::*;

verus! {

/// Stable note identifier. Never reused.
#[derive(Debug, Clone, Copy, PartialEq, Eq, Structural, Hash)]
pub struct NoteId(pub u64);

/// Stable track identifier. Never reused.
#[derive(Debug, Clone, Copy, PartialEq, Eq, Structural, Hash)]
pub struct TrackId(pub u64);

/// Hands out track and note IDs in strictly increasing order.
#[derive(Debug)]
pub struct IdAllocator {
    next_track: u64,
    next_note: u64,
}

impl IdAllocator {
    /// The track ID the next call to `next_track_id` will return.
    pub closed spec fn tracks_allocated(&self) -> u64 {
        self.next_track
    }

    /// The note ID the next call to `next_note_id` will return.
    pub closed spec fn notes_allocated(&self) -> u64 {
        self.next_note
    }

    /// Allocate the next track ID, never repeating an earlier one.
    pub fn next_track_id(&mut self) -> (r: TrackId)
        requires
            old(self).tracks_allocated() < u64::MAX,
        ensures
            r == (TrackId(old(self).tracks_allocated())),
            final(self).tracks_allocated() == old(self).tracks_allocated() + 1,
            final(self).notes_allocated() == old(self).notes_allocated(),
    {
        let track = TrackId(self.next_track);
        self.next_track = self.next_track + 1;
        track
    }

    /// Allocate the next note ID, never repeating an earlier one.
    pub fn next_note_id(&mut self) -> (r: NoteId)
        requires
            old(self).notes_allocated() < u64::MAX,
        ensures
            r == (NoteId(old(self).notes_allocated())),
            final(self).notes_allocated() == old(self).notes_allocated() + 1,
            final(self).tracks_allocated() == old(self).tracks_allocated(),
    {
        let note = NoteId(self.next_note);
        self.next_note = self.next_note + 1;
        note
    }
}

impl Default for IdAllocator {
    /// A fresh allocator starts both counters at zero.
    fn default() -> (r: IdAllocator)
        ensures
            r.tracks_allocated() == 0,
            r.notes_allocated() == 0,
    {
        IdAllocator { next_track: 0, next_note: 0 }
    }
}

} // verus!
