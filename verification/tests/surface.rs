use motif::surface::{key_char_to_note, HeldNotes, Mode};

#[test]
fn mode_labels() {
    assert_eq!(Mode::Normal.label(), "NORMAL");
    assert_eq!(Mode::Play.label(), "PLAY");
}

#[test]
fn home_row_plays_the_white_keys() {
    assert_eq!(key_char_to_note('a'), Some(60));
    assert_eq!(key_char_to_note('s'), Some(62));
    assert_eq!(key_char_to_note('k'), Some(72));
    assert_eq!(key_char_to_note(';'), Some(76));
}

#[test]
fn top_row_plays_the_black_keys() {
    assert_eq!(key_char_to_note('q'), Some(61));
    assert_eq!(key_char_to_note('t'), Some(70));
    assert_eq!(key_char_to_note('p'), Some(80));
}

#[test]
fn unmapped_keys_play_nothing() {
    assert_eq!(key_char_to_note('z'), None);
    assert_eq!(key_char_to_note('1'), None);
    assert_eq!(key_char_to_note(' '), None);
}

#[test]
fn repeated_press_is_swallowed() {
    let mut held = HeldNotes::new();
    assert!(held.press(60));
    assert!(!held.press(60));
    assert!(held.release(60));
    assert!(!held.release(60));
    assert!(held.press(60));
}

#[test]
fn drain_all_returns_every_held_note() {
    let mut held = HeldNotes::new();
    held.press(64);
    held.press(60);
    held.press(67);
    held.release(64);

    // drain_all returns the held notes in ascending order.
    let notes = held.drain_all();
    assert_eq!(notes, vec![60, 67]);

    assert!(held.drain_all().is_empty());
}
