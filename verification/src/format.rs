//! Rendering notes and chords as text.
//!
//! The default spelling is the European one (letters A..G, with the raised
//! second pitch class spelt as the flat `Bb`); the latin spelling uses the
//! do-re-mi names. Each rendering is a method that returns a `String`.

use vstd::prelude::*;
use vstd::string::{StrSliceExecFns, StringExecFns};
use crate::chords::{Chord, ChordView, Note};

verus! {

/// The European spelling of a pitch class.
pub open spec fn note_name(n: Note) -> Seq<char> {
    match n {
        Note::A => "A"@,
        Note::ASharp => "Bb"@,
        Note::B => "B"@,
        Note::C => "C"@,
        Note::CSharp => "C#"@,
        Note::D => "D"@,
        Note::DSharp => "D#"@,
        Note::E => "E"@,
        Note::F => "F"@,
        Note::FSharp => "F#"@,
        Note::G => "G"@,
        Note::GSharp => "G#"@,
    }
}

/// The latin (do-re-mi) spelling of a pitch class.
pub open spec fn latin_note_name(n: Note) -> Seq<char> {
    match n {
        Note::A => "La"@,
        Note::ASharp => "Sib"@,
        Note::B => "Si"@,
        Note::C => "Do"@,
        Note::CSharp => "Do#"@,
        Note::D => "Re"@,
        Note::DSharp => "Re#"@,
        Note::E => "Mi"@,
        Note::F => "Fa"@,
        Note::FSharp => "Fa#"@,
        Note::G => "Sol"@,
        Note::GSharp => "Sol#"@,
    }
}

/// The decimal digit character for `d` (meaningful for 0 <= d <= 9).
pub open spec fn digit_char(d: int) -> char
    recommends
        0 <= d <= 9,
{
    if d == 0 {
        '0'
    } else if d == 1 {
        '1'
    } else if d == 2 {
        '2'
    } else if d == 3 {
        '3'
    } else if d == 4 {
        '4'
    } else if d == 5 {
        '5'
    } else if d == 6 {
        '6'
    } else if d == 7 {
        '7'
    } else if d == 8 {
        '8'
    } else {
        '9'
    }
}

/// The decimal rendering of `n`, without leading zeroes (meaningful for
/// 0 <= n < 1000, which covers every chord extension).
pub open spec fn dec_digits(n: int) -> Seq<char>
    recommends
        0 <= n < 1000,
{
    if n < 10 {
        seq![digit_char(n)]
    } else if n < 100 {
        seq![digit_char(n / 10), digit_char(n % 10)]
    } else {
        seq![digit_char(n / 100), digit_char((n / 10) % 10), digit_char(n % 10)]
    }
}

/// The European rendering of a chord, before any slash-bass suffix: root
/// spelling, then `m` if minor, then the quality suffix verbatim, then the
/// extension digits if the extension is not zero.
pub open spec fn chord_name_prefix(c: ChordView) -> Seq<char> {
    note_name(c.root) + (if c.minor {
        "m"@
    } else {
        Seq::<char>::empty()
    }) + c.others + (if c.number != 0 {
        dec_digits(c.number as int)
    } else {
        Seq::<char>::empty()
    })
}

/// The full European rendering of a chord: the prefix, then `/` and the
/// bass spelling exactly when the chord is a slash chord (bass != root).
pub open spec fn chord_name(c: ChordView) -> Seq<char> {
    chord_name_prefix(c) + (if c.bass != c.root {
        "/"@ + note_name(c.bass)
    } else {
        Seq::<char>::empty()
    })
}

/// The latin rendering of a chord: root spelling, then `m` if minor, then
/// the extension digits if not zero, then the quality suffix. No bass
/// suffix is rendered in this spelling.
pub open spec fn latin_chord_name(c: ChordView) -> Seq<char> {
    latin_note_name(c.root) + (if c.minor {
        "m"@
    } else {
        Seq::<char>::empty()
    }) + (if c.number != 0 {
        dec_digits(c.number as int)
    } else {
        Seq::<char>::empty()
    }) + c.others
}

impl Note {
    /// The European spelling of this pitch class.
    pub fn name(&self) -> (r: String)
        ensures
            r@ == note_name(*self),
    {
        match self {
            Note::A => String::from_str("A"),
            Note::ASharp => String::from_str("Bb"),
            Note::B => String::from_str("B"),
            Note::C => String::from_str("C"),
            Note::CSharp => String::from_str("C#"),
            Note::D => String::from_str("D"),
            Note::DSharp => String::from_str("D#"),
            Note::E => String::from_str("E"),
            Note::F => String::from_str("F"),
            Note::FSharp => String::from_str("F#"),
            Note::G => String::from_str("G"),
            Note::GSharp => String::from_str("G#"),
        }
    }
}

/// The latin (do-re-mi) spelling of a note.
pub fn latin(n: &Note) -> (r: String)
    ensures
        r@ == latin_note_name(*n),
{
    match n {
        Note::A => String::from_str("La"),
        Note::ASharp => String::from_str("Sib"),
        Note::B => String::from_str("Si"),
        Note::C => String::from_str("Do"),
        Note::CSharp => String::from_str("Do#"),
        Note::D => String::from_str("Re"),
        Note::DSharp => String::from_str("Re#"),
        Note::E => String::from_str("Mi"),
        Note::F => String::from_str("Fa"),
        Note::FSharp => String::from_str("Fa#"),
        Note::G => String::from_str("Sol"),
        Note::GSharp => String::from_str("Sol#"),
    }
}

/// One decimal digit as text.
fn digit_str(d: u8) -> (r: &'static str)
    requires
        d < 10,
    ensures
        r@ == seq![digit_char(d as int)],
{
    let r: &'static str = match d {
        0 => "0",
        1 => "1",
        2 => "2",
        3 => "3",
        4 => "4",
        5 => "5",
        6 => "6",
        7 => "7",
        8 => "8",
        _ => "9",
    };
    proof {
        reveal_strlit("0");
        reveal_strlit("1");
        reveal_strlit("2");
        reveal_strlit("3");
        reveal_strlit("4");
        reveal_strlit("5");
        reveal_strlit("6");
        reveal_strlit("7");
        reveal_strlit("8");
        reveal_strlit("9");
        assert(r@ =~= seq![digit_char(d as int)]);
    }
    r
}

/// The decimal rendering of a chord extension.
fn extension_digits(n: u8) -> (r: String)
    ensures
        r@ == dec_digits(n as int),
{
    let mut s = String::new();
    if n >= 100 {
        s.append(digit_str(n / 100));
        s.append(digit_str((n / 10) % 10));
        s.append(digit_str(n % 10));
        proof {
            assert(s@ =~= dec_digits(n as int));
        }
    } else if n >= 10 {
        s.append(digit_str(n / 10));
        s.append(digit_str(n % 10));
        proof {
            assert(s@ =~= dec_digits(n as int));
        }
    } else {
        s.append(digit_str(n));
        proof {
            assert(s@ =~= dec_digits(n as int));
        }
    }
    s
}

impl Chord {
    /// The European rendering of this chord: root, `m` if minor, quality
    /// suffix, extension digits if any, and `/bass` exactly when the bass
    /// differs from the root.
    pub fn name(&self) -> (r: String)
        ensures
            r@ == chord_name(self@),
    {
        let mut s = self.root.name();
        if self.minor {
            s.append("m");
        }
        s.append(self.others.as_str());
        if self.number != 0 {
            let d = extension_digits(self.number);
            s.append(d.as_str());
        }
        proof {
            assert(s@ =~= chord_name_prefix(self@));
        }
        if self.bass != self.root {
            s.append("/");
            let b = self.bass.name();
            s.append(b.as_str());
        }
        proof {
            assert(s@ =~= chord_name(self@));
        }
        s
    }
}

/// Wrapper that renders a chord in the latin spelling (Do, Re, Mi, ...).
pub struct Latin<'a>(pub &'a Chord);

impl<'a> Latin<'a> {
    /// The latin rendering of the wrapped chord: root, `m` if minor,
    /// extension digits if any, then the quality suffix.
    pub fn name(&self) -> (r: String)
        ensures
            r@ == latin_chord_name(self.0@),
    {
        let mut s = latin(&self.0.root);
        if self.0.minor {
            s.append("m");
        }
        if self.0.number != 0 {
            let d = extension_digits(self.0.number);
            s.append(d.as_str());
        }
        s.append(self.0.others.as_str());
        proof {
            assert(s@ =~= latin_chord_name(self.0@));
        }
        s
    }
}

/// No pitch-class spelling contains a slash character.
proof fn lemma_note_name_no_slash(n: Note)
    ensures
        forall|i: int| 0 <= i < note_name(n).len() ==> note_name(n)[i] != '/',
{
    reveal_strlit("A");
    reveal_strlit("Bb");
    reveal_strlit("B");
    reveal_strlit("C");
    reveal_strlit("C#");
    reveal_strlit("D");
    reveal_strlit("D#");
    reveal_strlit("E");
    reveal_strlit("F");
    reveal_strlit("F#");
    reveal_strlit("G");
    reveal_strlit("G#");
}

/// A chord whose bass differs from its root renders with a slash suffix;
/// one whose bass equals its root renders as the bare prefix, and (as long
/// as its free-text quality suffix holds no slash of its own) without any
/// slash at all.
pub proof fn lemma_chord_name_slash(c: ChordView)
    ensures
        c.bass != c.root ==> chord_name(c) == chord_name_prefix(c) + "/"@ + note_name(c.bass),
        c.bass != c.root ==> chord_name(c).contains('/'),
        c.bass == c.root ==> chord_name(c) == chord_name_prefix(c),
        c.bass == c.root && !c.others.contains('/') ==> !chord_name(c).contains('/'),
{
    reveal_strlit("/");
    reveal_strlit("m");
    if c.bass != c.root {
        assert(chord_name(c) =~= chord_name_prefix(c) + "/"@ + note_name(c.bass));
        let idx = chord_name_prefix(c).len() as int;
        assert(chord_name(c)[idx] == '/');
        assert(chord_name(c).contains('/'));
    } else {
        assert(chord_name(c) =~= chord_name_prefix(c));
        if !c.others.contains('/') {
            lemma_note_name_no_slash(c.root);
            assert forall|i: int| 0 <= i < chord_name_prefix(c).len() implies chord_name_prefix(
                c,
            )[i] != '/' by {
                let a = note_name(c.root);
                let b = if c.minor {
                    "m"@
                } else {
                    Seq::<char>::empty()
                };
                let d = c.others;
                let e = if c.number != 0 {
                    dec_digits(c.number as int)
                } else {
                    Seq::<char>::empty()
                };
                if i < a.len() {
                } else if i < a.len() + b.len() {
                } else if i < a.len() + b.len() + d.len() {
                    assert(d[i - a.len() - b.len()] != '/') by {
                        if d[i - a.len() - b.len()] == '/' {
                            assert(d.contains('/'));
                        }
                    };
                } else {
                    let j = i - a.len() - b.len() - d.len();
                    assert(e[j] != '/');
                }
            }
        }
    }
}

} // verus!
