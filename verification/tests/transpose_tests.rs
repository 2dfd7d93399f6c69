use chordpro::{map_to_chords, Chord, Chunk, Line, Note, Song, Transposer};

#[test]
fn transpose() {
    let song = Song::from_str("[C]A [D#m]Cm").expect("Failed to parse song");
    let song2 = Transposer::new(-3).transpose(song);

    let mut sections = song2.iter();
    let section = sections.next().unwrap();
    let mut lines = section.iter();
    let line = lines.next().unwrap();
    assert_eq!(
        line,
        &Line(vec![
            Chunk::Chord(Chord::major(Note::A)),
            Chunk::Lyrics("A ".to_string()),
            Chunk::Chord(Chord::minor(Note::C)),
            Chunk::Lyrics("Cm".to_string()),
        ])
    );
}

#[test]
fn transpose_then_transpose_equals_sum() {
    let text = "{title: t}\n[C]la [G/B]la\n\n{soc}\n[Am7]chorus\n{eoc}";
    let song = Song::from_str(text).expect("Failed to parse song");
    let step = Transposer::new(4).transpose(Transposer::new(3).transpose(song.clone()));
    let once = Transposer::new(7).transpose(song);
    assert_eq!(step, once);
}

#[test]
fn transpose_by_octaves_is_identity() {
    let text = "{comment: c [F#]}\n[C]la [G/B]la";
    let song = Song::from_str(text).expect("Failed to parse song");
    assert_eq!(Transposer::new(0).transpose(song.clone()), song);
    assert_eq!(Transposer::new(12).transpose(song.clone()), song);
    assert_eq!(Transposer::new(-24).transpose(song.clone()), song);
}

#[test]
fn transpose_in_place_touches_only_pitches() {
    let mut song = Song::from_str("{title: x}\n{capo: 3}\n[C]do [Em/G]re").expect(
        "Failed to parse song",
    );
    Transposer::new(2).apply_transpose(&mut song);
    assert_eq!(song.title, "x");
    assert_eq!(song.capo, 3);
    let expected = Line(vec![
        Chunk::Chord(Chord::major(Note::D)),
        Chunk::Lyrics("do ".to_string()),
        Chunk::Chord(Chord {
            root: Note::FSharp,
            minor: true,
            others: "".to_string(),
            number: 0,
            bass: Note::A,
        }),
        Chunk::Lyrics("re".to_string()),
    ]);
    let mut sections = song.iter();
    let mut lines = sections.next().unwrap().iter();
    assert_eq!(lines.next().unwrap(), &expected);
}

#[test]
fn pitch_arithmetic_wraps_and_cancels() {
    assert_eq!(Note::GSharp.add(1), Note::A);
    assert_eq!(Note::A.sub(1), Note::GSharp);
    assert_eq!(Note::C.add(12), Note::C);
    assert_eq!(Note::C.add(0), Note::C);
    assert_eq!(Note::C.add(-13), Note::B);
    assert_eq!(Note::C.add(7).sub(7), Note::C);
    assert_eq!(Note::E.add(-128).sub(-128), Note::E);
    assert_eq!(Note::default(), Note::A);
}

#[test]
fn map_to_chords_rewrites_every_chord() {
    let mut song = Song::from_str("[C]a [D]b\n\n{comment: x [E]}").expect("Failed to parse song");
    map_to_chords(&mut song, |_c: Chord| Chord::minor(Note::B));
    let mut count: usize = 0;
    let mut sections = song.iter();
    while let Some(section) = sections.next() {
        let mut lines = section.iter();
        while let Some(line) = lines.next() {
            let mut chunks = line.iter();
            while let Some(chunk) = chunks.next() {
                if let Chunk::Chord(c) = chunk {
                    assert_eq!(c, &Chord::minor(Note::B));
                    count += 1;
                }
            }
        }
    }
    assert_eq!(count, 3);
}
