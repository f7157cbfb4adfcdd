//! Control-surface logic: the editor mode, the one-octave "typing
//! keyboard piano" mapping, and the set of currently held notes.
//!
//! The graphical shell only draws and forwards key events; every decision
//! it takes — which note a key plays, whether a repeat is suppressed,
//! what to silence on leaving play mode — is made here.

use vstd::prelude::*;

verus! {

/// The editor's input mode.
#[derive(Debug, Clone, Copy, PartialEq, Eq, Structural)]
pub enum Mode {
    Normal,
    Play,
}

impl Mode {
    /// The badge text a status bar shows for this mode.
    pub fn label(&self) -> (r: &'static str)
        ensures
            *self == Mode::Normal ==> r@ == "NORMAL"@,
            *self == Mode::Play ==> r@ == "PLAY"@,
    {
        match self {
            Mode::Normal => "NORMAL",
            Mode::Play => "PLAY",
        }
    }
}

/// The note a typing-keyboard character plays, if any: white keys on the
/// home row, black keys on the top row, one octave around middle C
/// (MIDI note 60).
pub open spec fn key_note_spec(c: char) -> Option<u8> {
    match c {
        'a' => Some(60u8),  // C4
        's' => Some(62u8),  // D4
        'd' => Some(64u8),  // E4
        'f' => Some(65u8),  // F4
        'g' => Some(67u8),  // G4
        'h' => Some(69u8),  // A4
        'j' => Some(71u8),  // B4
        'k' => Some(72u8),  // C5
        'l' => Some(74u8),  // D5
        ';' => Some(76u8),  // E5
        'q' => Some(61u8),  // C#4
        'w' => Some(63u8),  // D#4
        'e' => Some(66u8),  // F#4
        'r' => Some(68u8),  // G#4
        't' => Some(70u8),  // A#4
        'y' => Some(73u8),  // C#5
        'u' => Some(75u8),  // D#5
        'o' => Some(78u8),  // F#5
        'p' => Some(80u8),  // G#5
        _ => None,
    }
}

/// Map one typing-keyboard character to its note. Characters outside the
/// two piano rows play nothing; the result is always a valid 7-bit note.
pub fn key_char_to_note(c: char) -> (r: Option<u8>)
    ensures
        r == key_note_spec(c),
        r matches Some(n) ==> n < 128,
{
    match c {
        'a' => Some(60),
        's' => Some(62),
        'd' => Some(64),
        'f' => Some(65),
        'g' => Some(67),
        'h' => Some(69),
        'j' => Some(71),
        'k' => Some(72),
        'l' => Some(74),
        ';' => Some(76),
        'q' => Some(61),
        'w' => Some(63),
        'e' => Some(66),
        'r' => Some(68),
        't' => Some(70),
        'y' => Some(73),
        'u' => Some(75),
        'o' => Some(78),
        'p' => Some(80),
        _ => None,
    }
}

/// The set of currently held notes. Tracking it suppresses key-repeat
/// floods of NoteOn, and lets a mode exit reliably silence everything.
pub struct HeldNotes {
    held: Vec<bool>,
}

impl HeldNotes {
    /// Which notes are held, indexed by note number.
    pub closed spec fn view(&self) -> Seq<bool> {
        self.held@
    }

    pub open spec fn wf(&self) -> bool {
        self@.len() == 128
    }

    /// No note held.
    pub fn new() -> (r: HeldNotes)
        ensures
            r.wf(),
            forall|n: int| 0 <= n < 128 ==> !(#[trigger] r@[n]),
    {
        let mut held: Vec<bool> = Vec::new();
        let mut i: usize = 0;
        while i < 128
            invariant
                i <= 128,
                held@.len() == i,
                forall|n: int| 0 <= n < i ==> !(#[trigger] held@[n]),
            decreases 128 - i,
        {
            held.push(false);
            i = i + 1;
        }
        HeldNotes { held }
    }

    /// Record a key press. True exactly when the note was not already
    /// held — the caller then sends one NoteOn; repeats are swallowed.
    pub fn press(&mut self, note: u8) -> (r: bool)
        requires
            old(self).wf(),
            note < 128,
        ensures
            final(self).wf(),
            r == !old(self)@[note as int],
            final(self)@ == old(self)@.update(note as int, true),
    {
        let was = self.held[note as usize];
        self.held[note as usize] = true;
        !was
    }

    /// Record a key release. True exactly when the note was held — the
    /// caller then sends one NoteOff.
    pub fn release(&mut self, note: u8) -> (r: bool)
        requires
            old(self).wf(),
            note < 128,
        ensures
            final(self).wf(),
            r == old(self)@[note as int],
            final(self)@ == old(self)@.update(note as int, false),
    {
        let was = self.held[note as usize];
        self.held[note as usize] = false;
        was
    }

    /// Release everything: returns every held note in ascending order and
    /// clears the set, so a mode exit can send the NoteOffs that keep no
    /// voice hanging.
    pub fn drain_all(&mut self) -> (r: Vec<u8>)
        requires
            old(self).wf(),
        ensures
            final(self).wf(),
            forall|n: int| 0 <= n < 128 ==> !(#[trigger] final(self)@[n]),
            forall|i: int|
                0 <= i < r@.len() ==> old(self)@[(#[trigger] r@[i]) as int] && r@[i] < 128,
            forall|n: u8| n < 128 && old(self)@[n as int] ==> r@.contains(n),
            forall|i: int, j: int| 0 <= i < j < r@.len() ==> r@[i] < r@[j],
    {
        let mut out: Vec<u8> = Vec::new();
        let mut n: usize = 0;
        while n < 128
            invariant
                n <= 128,
                self.wf(),
                self@.len() == 128,
                forall|m: int| 0 <= m < n ==> !(#[trigger] self@[m]),
                forall|m: int| n <= m < 128 ==> #[trigger] self@[m] == old(self)@[m],
                forall|i: int|
                    0 <= i < out@.len() ==> old(self)@[(#[trigger] out@[i]) as int] && out@[i]
                        < 128,
                forall|m: u8| m < n && old(self)@[m as int] ==> out@.contains(m),
                forall|i: int| 0 <= i < out@.len() ==> (#[trigger] out@[i]) < n,
                forall|i: int, j: int| 0 <= i < j < out@.len() ==> out@[i] < out@[j],
            decreases 128 - n,
        {
            let ghost prev_out = out@;
            if self.held[n] {
                out.push(n as u8);
                self.held[n] = false;
            }
            proof {
                assert forall|m: u8|
                    m < n + 1 && old(self)@[m as int] implies out@.contains(m) by {
                    if m < n {
                        assert(prev_out.contains(m));
                        let i = choose|i: int| 0 <= i < prev_out.len() && prev_out[i] == m;
                        assert(out@[i] == m);
                    } else {
                        assert(out@[out@.len() - 1] == n as u8);
                    }
                }
            }
            n = n + 1;
        }
        out
    }
}

} // verus!
