use chordpro::{latin, Chord, Latin, Note};

#[test]
fn standard_note() {
    assert_eq!(Note::A.name(), "A");
    assert_eq!(Note::ASharp.name(), "Bb");
    assert_eq!(Note::CSharp.name(), "C#");
}

#[test]
fn standard_chord() {
    assert_eq!(Chord::major(Note::C).name(), "C");
    assert_eq!(Chord::major(Note::FSharp).name(), "F#");
    assert_eq!(Chord::minor(Note::E).name(), "Em");
    assert_eq!(Chord::minor(Note::GSharp).name(), "G#m");
}

#[test]
fn latin_note() {
    assert_eq!(latin(&Note::B), "Si");
    assert_eq!(latin(&Note::ASharp), "Sib");
    assert_eq!(latin(&Note::DSharp), "Re#");
}

#[test]
fn latin_chord() {
    assert_eq!(Latin(&Chord::major(Note::D)).name(), "Re");
    assert_eq!(Latin(&Chord::minor(Note::A)).name(), "Lam");
    assert_eq!(Latin(&Chord::major(Note::ASharp)).name(), "Sib");
    assert_eq!(Latin(&Chord::minor(Note::GSharp)).name(), "Sol#m");
}

#[test]
fn standard_chord_with_extension_and_quality() {
    let c = Chord::from_str("Am7").expect("Failed to create chord");
    assert_eq!(c.name(), "Am7");
    let d = Chord::from_str("C#dim4/G").expect("Failed to create chord");
    assert_eq!(d.name(), "C#dim4/G");
}

#[test]
fn slash_suffix_exactly_when_bass_differs() {
    let plain = Chord::major(Note::C);
    assert!(!plain.name().contains('/'));
    let slash = Chord::from_str("C/G").expect("Failed to create chord");
    assert_eq!(slash.name(), "C/G");
    assert!(slash.name().contains('/'));
    let same_bass = Chord::from_str("C/C").expect("Failed to create chord");
    assert_eq!(same_bass.name(), "C");
    assert!(!same_bass.name().contains('/'));
}

#[test]
fn latin_chord_orders_number_before_quality_and_drops_bass() {
    let c = Chord::from_str("C#dim4/G").expect("Failed to create chord");
    assert_eq!(Latin(&c).name(), "Do#4dim");
}
