use motif::id::{IdAllocator, NoteId, TrackId};

#[test]
fn next_note_id() {
    let mut allocator = IdAllocator::default();

    assert_eq!(allocator.next_note_id(), NoteId(0));
    assert_eq!(allocator.next_note_id(), NoteId(1));
    assert_eq!(allocator.next_note_id(), NoteId(2));
}

#[test]
fn track_and_note_counters_are_independent() {
    let mut allocator = IdAllocator::default();

    assert_eq!(allocator.next_track_id(), TrackId(0));
    assert_eq!(allocator.next_note_id(), NoteId(0));
    assert_eq!(allocator.next_track_id(), TrackId(1));
    assert_eq!(allocator.next_note_id(), NoteId(1));
}
