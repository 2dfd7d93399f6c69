//! A chordpro parser: chordpro is a simple text format for the notation of
//! lyrics with chords, using bracketed chord symbols inline in lyric lines
//! and brace-delimited directives for metadata and section markers.
//!
//! Parsing a complete document yields a [`Song`]: ordered sections of lyric
//! lines annotated with inline chords, plus song-level metadata (title,
//! artist, capo). A [`transpose::Transposer`] shifts every chord of a song
//! by a fixed number of semitones.

pub mod chord_formatter;
pub mod chords;
pub mod format;
pub mod iterators;
pub mod song;
pub mod songparse;
pub mod transpose;

pub use chord_formatter::ChordFormatter;
pub use chord_formatter::StandardFormatter;
pub use format::latin;
pub use format::Latin;
pub use iterators::LineIterator;
pub use iterators::SectionIterator;
pub use iterators::SongIterator;
pub use songparse::ParseError;
pub use songparse::ParseRule;
pub use songparse::SongParser;
pub use transpose::map_to_chords;
pub use transpose::Transposer;

pub use chords::Chord;
pub use chords::Note;
pub use song::Chunk;
pub use song::Line;
pub use song::Paragraph;
pub use song::Section;
pub use song::Song;
