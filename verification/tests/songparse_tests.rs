use chordpro::{Chord, Chunk, Line, Note, Paragraph, ParseRule, Section, Song, SongParser};

fn chord(s: &str) -> Chord {
    Chord::from_str(s).expect("Failed to create chord")
}

#[test]
fn test_line_parse() {
    let parsed = Line::from_str("[C]How I wish, how I wish you were [D]here").expect(
        "Failed to parse",
    );
    assert_eq!(
        parsed,
        Line(vec![
            Chunk::Chord(chord("C")),
            Chunk::Lyrics("How I wish, how I wish you were ".to_string()),
            Chunk::Chord(chord("D")),
            Chunk::Lyrics("here".to_string())
        ])
    );
}

#[test]
fn test_paragraph_parse() {
    let parsed = Paragraph::from_str(
        r#"[C]How I wish, how I wish you were [D]here
            We're just [Am]two lost souls swimming in a fish bowl,[G] year after year"#,
    )
    .expect("Failed to parse");
    assert_eq!(
        parsed,
        Paragraph(vec![
            Line(vec![
                Chunk::Chord(chord("C")),
                Chunk::Lyrics("How I wish, how I wish you were ".to_string()),
                Chunk::Chord(chord("D")),
                Chunk::Lyrics("here".to_string())
            ]),
            Line(vec![
                Chunk::Lyrics("We're just ".to_string()),
                Chunk::Chord(chord("Am")),
                Chunk::Lyrics("two lost souls swimming in a fish bowl,".to_string()),
                Chunk::Chord(chord("G")),
                Chunk::Lyrics(" year after year".to_string())
            ])
        ])
    );
}

#[test]
fn test_chorus_parse() {
    let parsed = Section::from_str(
        r#"{soc}
            [C]How I wish, how I wish you were [D]here
            We're just [Am]two lost souls swimming in a fish bowl,[G] year after year
            {eoc}"#,
    )
    .expect("Failed to parse");
    assert_eq!(
        parsed,
        Section::Chorus(Paragraph(vec![
            Line(vec![
                Chunk::Chord(chord("C")),
                Chunk::Lyrics("How I wish, how I wish you were ".to_string()),
                Chunk::Chord(chord("D")),
                Chunk::Lyrics("here".to_string())
            ]),
            Line(vec![
                Chunk::Lyrics("We're just ".to_string()),
                Chunk::Chord(chord("Am")),
                Chunk::Lyrics("two lost souls swimming in a fish bowl,".to_string()),
                Chunk::Chord(chord("G")),
                Chunk::Lyrics(" year after year".to_string())
            ])
        ]))
    );
}

#[test]
fn test_comment_parse() {
    let parsed = Section::from_str(r#"{comment: This is a comment [Am]}"#).expect(
        "Failed to parse",
    );
    assert_eq!(
        parsed,
        Section::Comment(Line(vec![
            Chunk::Lyrics("This is a comment ".to_string()),
            Chunk::Chord(chord("Am")),
        ]))
    );
}

#[test]
fn test_song_parse() {
    let parsed = Song::from_str(
        r#"{title: Wish You Were Here}
            {artist: Pink Floyd}

            {soc}
            [C]How I wish, how I wish you were [D]here
            We're just [Am]two lost souls swimming in a fish bowl,[G] year after year
            {eoc}"#,
    )
    .expect("Failed to parse");
    assert_eq!(
        parsed,
        Song {
            title: "Wish You Were Here".to_string(),
            artist: "Pink Floyd".to_string(),
            capo: 0,
            song: vec![Section::Chorus(Paragraph(vec![
                Line(vec![
                    Chunk::Chord(chord("C")),
                    Chunk::Lyrics("How I wish, how I wish you were ".to_string()),
                    Chunk::Chord(chord("D")),
                    Chunk::Lyrics("here".to_string())
                ]),
                Line(vec![
                    Chunk::Lyrics("We're just ".to_string()),
                    Chunk::Chord(chord("Am")),
                    Chunk::Lyrics("two lost souls swimming in a fish bowl,".to_string()),
                    Chunk::Chord(chord("G")),
                    Chunk::Lyrics(" year after year".to_string())
                ])
            ]))]
        }
    );
}

#[test]
fn test_unknown_directive() {
    let parsed = Song::from_str(
        r#"{directive not known}
            {other: directive not known}
            [C]How I wish, how I wish you were [D]here
            We're just [Am]two lost souls swimming in a fish bowl,[G] year after year"#,
    )
    .expect("Failed to parse");
    assert_eq!(
        parsed,
        Song {
            title: "".to_string(),
            artist: "".to_string(),
            capo: 0,
            song: vec![Section::Verse(Paragraph(vec![
                Line(vec![
                    Chunk::Chord(chord("C")),
                    Chunk::Lyrics("How I wish, how I wish you were ".to_string()),
                    Chunk::Chord(chord("D")),
                    Chunk::Lyrics("here".to_string())
                ]),
                Line(vec![
                    Chunk::Lyrics("We're just ".to_string()),
                    Chunk::Chord(chord("Am")),
                    Chunk::Lyrics("two lost souls swimming in a fish bowl,".to_string()),
                    Chunk::Chord(chord("G")),
                    Chunk::Lyrics(" year after year".to_string())
                ])
            ]))]
        }
    );
}

#[test]
fn test_chord() {
    let parsed = Chord::from_str("C#dim4/G").expect("Failed to parse");
    assert_eq!(
        parsed,
        Chord {
            root: Note::CSharp,
            bass: Note::G,
            minor: false,
            number: 4,
            others: "dim".to_string()
        }
    );
}

#[test]
fn test_chorus_directive_scenario() {
    let parsed = Song::from_str(
        "{title: Wish You Were Here}\n{artist: Pink Floyd}\n\n{soc}\n[C]Hello [D]world\n{eoc}",
    )
    .expect("Failed to parse");
    assert_eq!(
        parsed,
        Song {
            title: "Wish You Were Here".to_string(),
            artist: "Pink Floyd".to_string(),
            capo: 0,
            song: vec![Section::Chorus(Paragraph(vec![Line(vec![
                Chunk::Chord(chord("C")),
                Chunk::Lyrics("Hello ".to_string()),
                Chunk::Chord(chord("D")),
                Chunk::Lyrics("world".to_string())
            ])]))]
        }
    );
}

#[test]
fn test_malformed_capo_falls_back_to_zero() {
    let parsed = Song::from_str("{capo: notanumber}\n[C]la").expect("Failed to parse");
    assert_eq!(parsed.capo, 0);
    let parsed2 = Song::from_str("{capo: 7}\n[C]la").expect("Failed to parse");
    assert_eq!(parsed2.capo, 7);
    let parsed3 = Song::from_str("{capo: 256}\n[C]la").expect("Failed to parse");
    assert_eq!(parsed3.capo, 0);
    let parsed4 = Song::from_str("{capo}\n[C]la").expect("Failed to parse");
    assert_eq!(parsed4.capo, 0);
    let parsed5 = Song::from_str("{capo: +7}\n[C]la").expect("Failed to parse");
    assert_eq!(parsed5.capo, 7);
    let parsed6 = Song::from_str("{capo: 007}\n[C]la").expect("Failed to parse");
    assert_eq!(parsed6.capo, 7);
}

#[test]
fn test_empty_input_is_empty_song() {
    let parsed = Song::from_str("").expect("Failed to parse");
    assert_eq!(
        parsed,
        Song { title: "".to_string(), artist: "".to_string(), capo: 0, song: vec![] }
    );
}

#[test]
fn test_note_parsing_with_markers() {
    assert_eq!(Note::from_str("A").expect("Failed to parse"), Note::A);
    assert_eq!(Note::from_str("Bb").expect("Failed to parse"), Note::ASharp);
    assert_eq!(Note::from_str("c#").expect("Failed to parse"), Note::CSharp);
    assert_eq!(Note::from_str("Cb").expect("Failed to parse"), Note::B);
}

#[test]
fn test_parse_failures_carry_position() {
    let err = Note::from_str("H").expect_err("should fail");
    assert_eq!(err.position, 0);
    let err2 = Note::from_str("Cx").expect_err("should fail");
    assert_eq!(err2.position, 1);
    let err3 = Line::from_str("").expect_err("should fail");
    assert_eq!(err3.position, 0);
    let err4 = Song::from_str("{unclosed").expect_err("should fail");
    assert!(err4.position <= "{unclosed".len());
    Chord::from_str("H").expect_err("should fail");
    Section::from_str("}").expect_err("should fail");
    Song::from_str("[C").expect_err("should fail");
    Song::from_str("{soc}\n[C]la").expect_err("missing end of chorus");
}

#[test]
fn test_each_failure_names_its_rule() {
    assert_eq!(Note::from_str("H").unwrap_err().rule, ParseRule::Note);
    assert_eq!(Song::from_str("[C").unwrap_err().rule, ParseRule::Chord);
    assert_eq!(Line::from_str("").unwrap_err().rule, ParseRule::Line);
    assert_eq!(Section::from_str("}").unwrap_err().rule, ParseRule::Paragraph);
    assert_eq!(Song::from_str("{soc}\n[C]la").unwrap_err().rule, ParseRule::Chorus);
    assert_eq!(Song::from_str("{comment: x").unwrap_err().rule, ParseRule::Comment);
    assert_eq!(Song::from_str("{unclosed").unwrap_err().rule, ParseRule::Directive);
    assert_eq!(Song::from_str("}").unwrap_err().rule, ParseRule::Document);
}

#[test]
fn test_parser_entry_points_agree() {
    assert_eq!(SongParser::parse_note("Bb"), Note::from_str("Bb"));
    assert_eq!(SongParser::parse_chord("Am7/G"), Chord::from_str("Am7/G"));
    assert_eq!(SongParser::parse_line("[C]x"), Line::from_str("[C]x"));
    assert_eq!(SongParser::parse_paragraph("[C]x\n[D]y"), Paragraph::from_str("[C]x\n[D]y"));
    assert_eq!(
        SongParser::parse_section("{comment: z}"),
        Section::from_str("{comment: z}")
    );
    assert_eq!(SongParser::parse_song("[C]x"), Song::from_str("[C]x"));
}

#[test]
fn test_chord_extension_too_large_falls_back_to_zero() {
    let parsed = Chord::from_str("C256").expect("Failed to parse");
    assert_eq!(parsed.number, 0);
    let parsed2 = Chord::from_str("C255").expect("Failed to parse");
    assert_eq!(parsed2.number, 255);
}
