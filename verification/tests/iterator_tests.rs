use chordpro::{Chord, ChordFormatter, Chunk, Note, Section, Song, StandardFormatter};

#[test]
fn song_and_section_cursors_visit_everything_in_order() {
    let song = Song::from_str("{comment: hey [C]}\n\n[D]verse").expect("Failed to parse");
    let mut sections = song.iter();

    let first = sections.next().unwrap();
    assert!(matches!(first, Section::Comment(_)));
    let mut lines = first.iter();
    let line = lines.next().unwrap();
    assert!(lines.next().is_none());
    let mut chunks = line.iter();
    assert_eq!(chunks.next().unwrap(), &Chunk::Lyrics("hey ".to_string()));
    assert_eq!(chunks.next().unwrap(), &Chunk::Chord(Chord::major(Note::C)));
    assert!(chunks.next().is_none());

    let second = sections.next().unwrap();
    assert!(matches!(second, Section::Verse(_)));
    let mut lines2 = second.iter();
    let line2 = lines2.next().unwrap();
    assert!(lines2.next().is_none());
    let mut chunks2 = line2.iter();
    assert_eq!(chunks2.next().unwrap(), &Chunk::Chord(Chord::major(Note::D)));
    assert_eq!(chunks2.next().unwrap(), &Chunk::Lyrics("verse".to_string()));
    assert!(chunks2.next().is_none());

    assert!(sections.next().is_none());
}

#[test]
fn standard_formatter_uses_default_spelling() {
    let f = StandardFormatter;
    assert_eq!(f.format(&Chord::minor(Note::E)), "Em");
    assert_eq!(f.format(&Chord::from_str("C/G").expect("Failed to parse")), "C/G");
    assert_eq!(f.format_note(&Note::DSharp), "D#");
}
