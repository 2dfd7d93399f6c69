//! A pluggable rendering interface for chords and notes.

use vstd::prelude::*;
use crate::chords::{Chord, Note};
use crate::format::{chord_name, note_name};

verus! {

/// Renders chords and notes as text. Implement this to plug an alternate
/// naming convention into code that displays chords.
pub trait ChordFormatter {
    /// Renders one chord.
    fn format(&self, chord: &Chord) -> String;

    /// Renders one note.
    fn format_note(&self, note: &Note) -> String;
}

/// The default formatter: the European spelling.
pub struct StandardFormatter;

impl ChordFormatter for StandardFormatter {
    fn format(&self, chord: &Chord) -> (r: String)
        ensures
            r@ == chord_name(chord@),
    {
        chord.name()
    }

    fn format_note(&self, note: &Note) -> (r: String)
        ensures
            r@ == note_name(*note),
    {
        note.name()
    }
}

} // verus!
