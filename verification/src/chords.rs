//! The pitch model (the twelve pitch classes and their circular arithmetic)
//! and the chord record built on it.

use vstd::prelude::*;
use vstd::arithmetic::div_mod::{
    lemma_add_mod_noop, lemma_fundamental_div_mod, lemma_mod_multiples_vanish, lemma_small_mod,
};

verus! {

/// One of the twelve pitch classes, arranged on a fixed cycle of semitones
/// starting at A.
#[derive(Copy, Clone, Debug, PartialEq, Eq, Structural)]
pub enum Note {
    A,
    ASharp,
    B,
    C,
    CSharp,
    D,
    DSharp,
    E,
    F,
    FSharp,
    G,
    GSharp,
}

/// The ordinal of a pitch class on the cycle: A is 0, G# is 11.
pub open spec fn pitch_ord(n: Note) -> int {
    match n {
        Note::A => 0,
        Note::ASharp => 1,
        Note::B => 2,
        Note::C => 3,
        Note::CSharp => 4,
        Note::D => 5,
        Note::DSharp => 6,
        Note::E => 7,
        Note::F => 8,
        Note::FSharp => 9,
        Note::G => 10,
        Note::GSharp => 11,
    }
}

/// The pitch class with the given ordinal (meaningful for 0 <= k < 12).
pub open spec fn pitch_from_ord(k: int) -> Note
    recommends
        0 <= k < 12,
{
    if k == 0 {
        Note::A
    } else if k == 1 {
        Note::ASharp
    } else if k == 2 {
        Note::B
    } else if k == 3 {
        Note::C
    } else if k == 4 {
        Note::CSharp
    } else if k == 5 {
        Note::D
    } else if k == 6 {
        Note::DSharp
    } else if k == 7 {
        Note::E
    } else if k == 8 {
        Note::F
    } else if k == 9 {
        Note::FSharp
    } else if k == 10 {
        Note::G
    } else {
        Note::GSharp
    }
}

/// `n` raised by `k` semitones, wrapping on the twelve-member cycle.
/// Total for every integer `k`, positive or negative.
pub open spec fn pitch_add(n: Note, k: int) -> Note {
    pitch_from_ord((pitch_ord(n) + k) % 12)
}

/// `n` lowered by `k` semitones: defined as raising by `-k`.
pub open spec fn pitch_sub(n: Note, k: int) -> Note {
    pitch_add(n, -k)
}

/// Round trip between a pitch class and its ordinal.
pub proof fn lemma_ord_from_ord(k: int)
    requires
        0 <= k < 12,
    ensures
        pitch_ord(pitch_from_ord(k)) == k,
{
}

/// Round trip between an ordinal and its pitch class.
pub proof fn lemma_from_ord_ord(n: Note)
    ensures
        pitch_from_ord(pitch_ord(n)) == n,
{
}

/// Raising a pitch twice adds the offsets: raising by `a` and then by `b`
/// lands on the same pitch as raising once by `a + b`.
pub proof fn lemma_pitch_add_add(n: Note, a: int, b: int)
    ensures
        pitch_add(pitch_add(n, a), b) == pitch_add(n, a + b),
{
    let o = pitch_ord(n);
    lemma_small_mod(((o + a) % 12) as nat, 12);
    lemma_ord_from_ord((o + a) % 12);
    assert(((o + a) % 12 + b) % 12 == (o + a + b) % 12) by {
        lemma_add_mod_noop((o + a) % 12, b, 12);
        lemma_small_mod((((o + a) % 12) % 12) as nat, 12);
        lemma_add_mod_noop(o + a, b, 12);
    };
}

/// Raising a pitch by any whole number of octaves (any multiple of twelve,
/// including zero) leaves it unchanged.
pub proof fn lemma_pitch_add_octaves(n: Note, k: int)
    requires
        k % 12 == 0,
    ensures
        pitch_add(n, k) == n,
{
    let o = pitch_ord(n);
    lemma_fundamental_div_mod(k, 12);
    lemma_mod_multiples_vanish(k / 12, o, 12);
    lemma_small_mod(o as nat, 12);
    lemma_from_ord_ord(n);
}

/// Raising a pitch by exactly one octave, or by nothing at all, leaves it
/// unchanged.
pub proof fn lemma_pitch_add_twelve_zero(n: Note)
    ensures
        pitch_add(n, 12) == n,
        pitch_add(n, 0) == n,
{
    lemma_pitch_add_octaves(n, 12);
    lemma_pitch_add_octaves(n, 0);
}

/// Raising by `k` and then lowering by `k` returns to the original pitch,
/// for every integer `k`.
pub proof fn lemma_pitch_add_sub_cancel(n: Note, k: int)
    ensures
        pitch_sub(pitch_add(n, k), k) == n,
{
    lemma_pitch_add_add(n, k, -k);
    lemma_pitch_add_octaves(n, 0);
}

impl Note {
    /// The ordinal of this pitch class, as a machine integer.
    pub fn to_ordinal(self) -> (r: u8)
        ensures
            r as int == pitch_ord(self),
    {
        match self {
            Note::A => 0,
            Note::ASharp => 1,
            Note::B => 2,
            Note::C => 3,
            Note::CSharp => 4,
            Note::D => 5,
            Note::DSharp => 6,
            Note::E => 7,
            Note::F => 8,
            Note::FSharp => 9,
            Note::G => 10,
            Note::GSharp => 11,
        }
    }

    /// The pitch class with the given ordinal.
    pub fn from_ordinal(k: u8) -> (r: Note)
        requires
            k < 12,
        ensures
            r == pitch_from_ord(k as int),
    {
        if k == 0 {
            Note::A
        } else if k == 1 {
            Note::ASharp
        } else if k == 2 {
            Note::B
        } else if k == 3 {
            Note::C
        } else if k == 4 {
            Note::CSharp
        } else if k == 5 {
            Note::D
        } else if k == 6 {
            Note::DSharp
        } else if k == 7 {
            Note::E
        } else if k == 8 {
            Note::F
        } else if k == 9 {
            Note::FSharp
        } else if k == 10 {
            Note::G
        } else {
            Note::GSharp
        }
    }

    /// This pitch raised by `k` semitones, wrapping on the cycle. Total for
    /// every `k`, positive or negative.
    pub fn add(self, k: i8) -> (r: Note)
        ensures
            r == pitch_add(self, k as int),
    {
        let o: i32 = self.to_ordinal() as i32;
        let shifted: i32 = o + (k as i32) + 132;
        assert(shifted >= 0);
        let m: u32 = (shifted as u32) % 12;
        proof {
            lemma_mod_multiples_vanish(11, o + (k as int), 12);
            assert(m as int == (pitch_ord(self) + k as int) % 12);
        }
        Note::from_ordinal(m as u8)
    }

    /// This pitch lowered by `k` semitones: the inverse of [`Note::add`].
    pub fn sub(self, k: i8) -> (r: Note)
        ensures
            r == pitch_sub(self, k as int),
    {
        let o: i32 = self.to_ordinal() as i32;
        let shifted: i32 = o - (k as i32) + 132;
        assert(shifted >= 0);
        let m: u32 = (shifted as u32) % 12;
        proof {
            lemma_mod_multiples_vanish(11, o - (k as int), 12);
            assert(m as int == (pitch_ord(self) - k as int) % 12);
        }
        Note::from_ordinal(m as u8)
    }
}

impl Default for Note {
    /// The default pitch class is A.
    fn default() -> (r: Note)
        ensures
            r == Note::A,
    {
        Note::A
    }
}

/// The mathematical value of a chord: its pitch content and quality, with
/// the free-text quality suffix abstracted to a sequence of characters.
#[verifier::ext_equal]
pub ghost struct ChordView {
    pub root: Note,
    pub minor: bool,
    pub others: Seq<char>,
    pub number: u8,
    pub bass: Note,
}

/// A chord: a root pitch, a minor flag, a free-text quality suffix, a
/// numeric extension (0 means none), and a bass pitch. The chord is a
/// "slash chord" exactly when `bass != root`.
#[derive(Debug, PartialEq, Clone)]
pub struct Chord {
    pub root: Note,
    pub minor: bool,
    pub others: String,
    pub number: u8,
    pub bass: Note,
}

impl View for Chord {
    type V = ChordView;

    open spec fn view(&self) -> ChordView {
        ChordView {
            root: self.root,
            minor: self.minor,
            others: self.others@,
            number: self.number,
            bass: self.bass,
        }
    }
}

impl Chord {
    /// A plain major chord on the given root; the bass coincides with the
    /// root, there is no quality suffix and no numeric extension.
    pub fn major(n: Note) -> (r: Chord)
        ensures
            r.root == n,
            !r.minor,
            r.others@ == Seq::<char>::empty(),
            r.number == 0,
            r.bass == n,
    {
        Chord { root: n, minor: false, others: String::new(), number: 0, bass: n }
    }

    /// A plain minor chord on the given root; the bass coincides with the
    /// root, there is no quality suffix and no numeric extension.
    pub fn minor(n: Note) -> (r: Chord)
        ensures
            r.root == n,
            r.minor,
            r.others@ == Seq::<char>::empty(),
            r.number == 0,
            r.bass == n,
    {
        Chord { root: n, minor: true, others: String::new(), number: 0, bass: n }
    }
}

impl Default for Chord {
    /// The default chord: major chord on the default pitch class.
    fn default() -> (r: Chord)
        ensures
            r.root == Note::A,
            !r.minor,
            r.others@ == Seq::<char>::empty(),
            r.number == 0,
            r.bass == Note::A,
    {
        Chord::major(Note::A)
    }
}

} // verus!
