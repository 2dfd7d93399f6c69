//! The chordpro grammar and its parser.
//!
//! The grammar, in outline: a document is an interleaving of directives
//! (`{name}` or `{name: value}`) and sections; a section is a chorus (a
//! paragraph bounded by `{soc}` and `{eoc}`), a comment (`{comment: ...}`
//! whose value is itself a line), or a bare paragraph (a verse); a
//! paragraph is consecutive lines with no directive between them; a line
//! interleaves bracketed chord tokens such as `[Am7/G]` with literal text
//! runs; a chord is a note letter with optional sharp/flat markers, an
//! optional minor or major marker, an optional free-text quality, an
//! optional decimal extension and an optional `/bass` note.
//!
//! A parse either consumes the whole input and succeeds, or fails with the
//! grammar rule it expected and the character offset at which matching
//! stopped. Parsing is specified by `spec` functions over the character
//! sequence of the input; every executable parser is proved to return
//! exactly what the specification says.

use vstd::prelude::*;
use vstd::string::{StrSliceExecFns, StringExecFns};
use crate::chords::{pitch_add, Chord, ChordView, Note};
use crate::song::{Chunk, ChunkView, Line, Paragraph, Section, SectionView, Song, SongView};

verus! {

/// A grammar rule, named in parse failures.
#[derive(Copy, Clone, Debug, PartialEq, Eq, Structural)]
pub enum ParseRule {
    /// A note: a letter A..G with optional sharp or flat markers.
    Note,
    /// A chord, or the closing bracket of a chord token.
    Chord,
    /// A line of chord tokens and literal text.
    Line,
    /// A paragraph of consecutive lines.
    Paragraph,
    /// A chorus block bounded by `{soc}` and `{eoc}`.
    Chorus,
    /// A comment directive whose value is a line.
    Comment,
    /// A `{name}` or `{name: value}` directive.
    Directive,
    /// The document as a whole.
    Document,
}

/// A parse failure: the rule that was expected and the character offset at
/// which matching stopped.
#[derive(Copy, Clone, Debug, PartialEq, Eq, Structural)]
pub struct ParseError {
    /// The grammar rule the parser expected at the failure point.
    pub rule: ParseRule,
    /// The character offset at which matching stopped.
    pub position: usize,
}

// ---------------------------------------------------------------------
// Character classes.
// ---------------------------------------------------------------------

/// A note letter: A..G in either case.
pub open spec fn is_note_letter(c: char) -> bool {
    ||| c == 'A' || c == 'a'
    ||| c == 'B' || c == 'b'
    ||| c == 'C' || c == 'c'
    ||| c == 'D' || c == 'd'
    ||| c == 'E' || c == 'e'
    ||| c == 'F' || c == 'f'
    ||| c == 'G' || c == 'g'
}

/// The pitch class a note letter names (case-insensitive).
pub open spec fn letter_pitch(c: char) -> Note {
    if c == 'A' || c == 'a' {
        Note::A
    } else if c == 'B' || c == 'b' {
        Note::B
    } else if c == 'C' || c == 'c' {
        Note::C
    } else if c == 'D' || c == 'd' {
        Note::D
    } else if c == 'E' || c == 'e' {
        Note::E
    } else if c == 'F' || c == 'f' {
        Note::F
    } else {
        Note::G
    }
}

/// A decimal digit.
pub open spec fn is_digit(c: char) -> bool {
    ||| c == '0' || c == '1' || c == '2' || c == '3' || c == '4'
    ||| c == '5' || c == '6' || c == '7' || c == '8' || c == '9'
}

/// The value of a decimal digit (meaningful when `is_digit(c)`).
pub open spec fn digit_val(c: char) -> int {
    if c == '0' {
        0
    } else if c == '1' {
        1
    } else if c == '2' {
        2
    } else if c == '3' {
        3
    } else if c == '4' {
        4
    } else if c == '5' {
        5
    } else if c == '6' {
        6
    } else if c == '7' {
        7
    } else if c == '8' {
        8
    } else {
        9
    }
}

/// Inline whitespace: a space or a tab.
pub open spec fn is_inline_ws(c: char) -> bool {
    c == ' ' || c == '\t'
}

/// A line break character.
pub open spec fn is_line_break(c: char) -> bool {
    c == '\n' || c == '\r'
}

/// A character of a literal text run: anything but a bracket that opens a
/// chord token, a brace, or a line break.
pub open spec fn is_text_char(c: char) -> bool {
    c != '[' && c != '{' && c != '}' && !is_line_break(c)
}

/// A character that can open a line: a chord token or a text run.
pub open spec fn is_line_start(c: char) -> bool {
    c != '{' && c != '}' && !is_line_break(c)
}

/// A character of a chord's free-text quality token: anything not
/// otherwise reserved by the chord or line syntax.
pub open spec fn is_symbol_char(c: char) -> bool {
    &&& !is_digit(c)
    &&& c != '/'
    &&& c != '[' && c != ']' && c != '{' && c != '}'
    &&& !is_inline_ws(c)
    &&& !is_line_break(c)
}

/// A character of a directive name: anything up to the separator, the
/// closing brace, whitespace or a bracket.
pub open spec fn is_name_char(c: char) -> bool {
    &&& c != ':' && c != '{' && c != '}' && c != '['
    &&& !is_inline_ws(c)
    &&& !is_line_break(c)
}

/// A character of a directive value: anything up to the closing brace on
/// the same line.
pub open spec fn is_value_char(c: char) -> bool {
    c != '}' && !is_line_break(c)
}

// ---------------------------------------------------------------------
// Scanning runs of characters.
// ---------------------------------------------------------------------

/// The first position at or after `i` that does not hold inline
/// whitespace.
pub open spec fn skip_inline_ws(s: Seq<char>, i: int) -> int
    decreases s.len() - i,
{
    if 0 <= i < s.len() && is_inline_ws(s[i]) {
        skip_inline_ws(s, i + 1)
    } else {
        i
    }
}

/// The first position at or after `i` that holds neither inline
/// whitespace nor a line break.
pub open spec fn skip_blank(s: Seq<char>, i: int) -> int
    decreases s.len() - i,
{
    if 0 <= i < s.len() && (is_inline_ws(s[i]) || is_line_break(s[i])) {
        skip_blank(s, i + 1)
    } else {
        i
    }
}

/// The end of the text run starting at `i`.
pub open spec fn text_end(s: Seq<char>, i: int) -> int
    decreases s.len() - i,
{
    if 0 <= i < s.len() && is_text_char(s[i]) {
        text_end(s, i + 1)
    } else {
        i
    }
}

/// The end of the quality-symbol run starting at `i`.
pub open spec fn symbol_end(s: Seq<char>, i: int) -> int
    decreases s.len() - i,
{
    if 0 <= i < s.len() && is_symbol_char(s[i]) {
        symbol_end(s, i + 1)
    } else {
        i
    }
}

/// The end of the digit run starting at `i`.
pub open spec fn digits_end(s: Seq<char>, i: int) -> int
    decreases s.len() - i,
{
    if 0 <= i < s.len() && is_digit(s[i]) {
        digits_end(s, i + 1)
    } else {
        i
    }
}

/// The end of the directive-name run starting at `i`.
pub open spec fn name_end(s: Seq<char>, i: int) -> int
    decreases s.len() - i,
{
    if 0 <= i < s.len() && is_name_char(s[i]) {
        name_end(s, i + 1)
    } else {
        i
    }
}

/// The end of the directive-value run starting at `i`.
pub open spec fn value_end(s: Seq<char>, i: int) -> int
    decreases s.len() - i,
{
    if 0 <= i < s.len() && is_value_char(s[i]) {
        value_end(s, i + 1)
    } else {
        i
    }
}

// ---------------------------------------------------------------------
// Notes.
// ---------------------------------------------------------------------

/// Folds sharp and flat markers from position `i` into the pitch `n`,
/// left to right: each `#` raises by one, each `b` lowers by one. Returns
/// the final pitch and the position after the run of markers.
pub open spec fn spec_note_marks(s: Seq<char>, i: int, n: Note) -> (Note, int)
    decreases s.len() - i,
{
    if 0 <= i < s.len() && s[i] == '#' {
        spec_note_marks(s, i + 1, pitch_add(n, 1))
    } else if 0 <= i < s.len() && s[i] == 'b' {
        spec_note_marks(s, i + 1, pitch_add(n, -1))
    } else {
        (n, i)
    }
}

/// Parses a note at position `i`: a note letter (case-insensitive)
/// followed by any run of sharp or flat markers. `None` when no note
/// letter stands at `i`.
pub open spec fn spec_parse_note(s: Seq<char>, i: int) -> Option<(Note, int)> {
    if 0 <= i < s.len() && is_note_letter(s[i]) {
        Some(spec_note_marks(s, i + 1, letter_pitch(s[i])))
    } else {
        None
    }
}

/// The marker fold stays inside the input.
proof fn lemma_note_marks_bounds(s: Seq<char>, i: int, n: Note)
    requires
        0 <= i <= s.len(),
    ensures
        i <= spec_note_marks(s, i, n).1 <= s.len(),
    decreases s.len() - i,
{
    if 0 <= i < s.len() && s[i] == '#' {
        lemma_note_marks_bounds(s, i + 1, pitch_add(n, 1));
    } else if 0 <= i < s.len() && s[i] == 'b' {
        lemma_note_marks_bounds(s, i + 1, pitch_add(n, -1));
    }
}

/// Whether a note letter stands at `c` (executable form of
/// [`is_note_letter`]).
fn note_letter(c: char) -> (r: bool)
    ensures
        r == is_note_letter(c),
{
    c == 'A' || c == 'a' || c == 'B' || c == 'b' || c == 'C' || c == 'c' || c == 'D' || c == 'd'
        || c == 'E' || c == 'e' || c == 'F' || c == 'f' || c == 'G' || c == 'g'
}

/// The pitch class a note letter names.
fn letter_to_pitch(c: char) -> (r: Note)
    ensures
        r == letter_pitch(c),
{
    if c == 'A' || c == 'a' {
        Note::A
    } else if c == 'B' || c == 'b' {
        Note::B
    } else if c == 'C' || c == 'c' {
        Note::C
    } else if c == 'D' || c == 'd' {
        Note::D
    } else if c == 'E' || c == 'e' {
        Note::E
    } else if c == 'F' || c == 'f' {
        Note::F
    } else {
        Note::G
    }
}

/// Parses a note at position `i` of `s` (whose character length is `n`),
/// exactly as [`spec_parse_note`] says.
fn note_at(s: &str, n: usize, i: usize) -> (r: Option<(Note, usize)>)
    requires
        n == s@.len(),
        i <= n,
    ensures
        r is Some <==> spec_parse_note(s@, i as int) is Some,
        r matches Some(p) ==> {
            &&& spec_parse_note(s@, i as int) matches Some(q) && p.0 == q.0 && p.1 as int == q.1
            &&& i < p.1 <= n
        },
{
    if i < n && note_letter(s.get_char(i)) {
        let base = letter_to_pitch(s.get_char(i));
        let ghost i0: int = i as int + 1;
        let ghost n0: Note = base;
        let mut note = base;
        let mut j: usize = i + 1;
        while j < n && (s.get_char(j) == '#' || s.get_char(j) == 'b')
            invariant
                n == s@.len(),
                i + 1 <= j <= n,
                spec_note_marks(s@, i0, n0) == spec_note_marks(s@, j as int, note),
            decreases n - j,
        {
            if s.get_char(j) == '#' {
                note = note.add(1);
            } else {
                note = note.sub(1);
            }
            j = j + 1;
        }
        assert(spec_note_marks(s@, j as int, note) == (note, j as int));
        Some((note, j))
    } else {
        None
    }
}

// ---------------------------------------------------------------------
// Executable character classes and scanners.
// ---------------------------------------------------------------------

/// Executable form of [`is_digit`].
fn char_is_digit(c: char) -> (r: bool)
    ensures
        r == is_digit(c),
{
    c == '0' || c == '1' || c == '2' || c == '3' || c == '4' || c == '5' || c == '6' || c == '7'
        || c == '8' || c == '9'
}

/// The value of a decimal digit.
fn digit_value(c: char) -> (r: u8)
    requires
        is_digit(c),
    ensures
        r as int == digit_val(c),
{
    if c == '0' {
        0
    } else if c == '1' {
        1
    } else if c == '2' {
        2
    } else if c == '3' {
        3
    } else if c == '4' {
        4
    } else if c == '5' {
        5
    } else if c == '6' {
        6
    } else if c == '7' {
        7
    } else if c == '8' {
        8
    } else {
        9
    }
}

/// Executable form of [`is_inline_ws`].
fn char_is_inline_ws(c: char) -> (r: bool)
    ensures
        r == is_inline_ws(c),
{
    c == ' ' || c == '\t'
}

/// Executable form of [`is_line_break`].
fn char_is_break(c: char) -> (r: bool)
    ensures
        r == is_line_break(c),
{
    c == '\n' || c == '\r'
}

/// Executable form of [`is_text_char`].
fn char_is_text(c: char) -> (r: bool)
    ensures
        r == is_text_char(c),
{
    c != '[' && c != '{' && c != '}' && c != '\n' && c != '\r'
}

/// Executable form of [`is_line_start`].
fn char_is_line_start(c: char) -> (r: bool)
    ensures
        r == is_line_start(c),
{
    c != '{' && c != '}' && c != '\n' && c != '\r'
}

/// Executable form of [`is_symbol_char`].
fn char_is_symbol(c: char) -> (r: bool)
    ensures
        r == is_symbol_char(c),
{
    !char_is_digit(c) && c != '/' && c != '[' && c != ']' && c != '{' && c != '}' && c != ' '
        && c != '\t' && c != '\n' && c != '\r'
}

/// Executable form of [`is_name_char`].
fn char_is_name(c: char) -> (r: bool)
    ensures
        r == is_name_char(c),
{
    c != ':' && c != '{' && c != '}' && c != '[' && c != ' ' && c != '\t' && c != '\n' && c != '\r'
}

/// Executable form of [`is_value_char`].
fn char_is_value(c: char) -> (r: bool)
    ensures
        r == is_value_char(c),
{
    c != '}' && c != '\n' && c != '\r'
}

/// Finds [`skip_inline_ws`] of the position.
fn scan_skip_inline_ws(s: &str, n: usize, i: usize) -> (r: usize)
    requires
        n == s@.len(),
        i <= n,
    ensures
        r as int == skip_inline_ws(s@, i as int),
        i <= r <= n,
{
    let mut j = i;
    while j < n && char_is_inline_ws(s.get_char(j))
        invariant
            n == s@.len(),
            i <= j <= n,
            skip_inline_ws(s@, i as int) == skip_inline_ws(s@, j as int),
        decreases n - j,
    {
        j = j + 1;
    }
    j
}

/// Finds [`skip_blank`] of the position.
fn scan_skip_blank(s: &str, n: usize, i: usize) -> (r: usize)
    requires
        n == s@.len(),
        i <= n,
    ensures
        r as int == skip_blank(s@, i as int),
        i <= r <= n,
{
    let mut j = i;
    while j < n && (char_is_inline_ws(s.get_char(j)) || char_is_break(s.get_char(j)))
        invariant
            n == s@.len(),
            i <= j <= n,
            skip_blank(s@, i as int) == skip_blank(s@, j as int),
        decreases n - j,
    {
        j = j + 1;
    }
    j
}

/// Finds [`text_end`] of the position.
fn scan_text_end(s: &str, n: usize, i: usize) -> (r: usize)
    requires
        n == s@.len(),
        i <= n,
    ensures
        r as int == text_end(s@, i as int),
        i <= r <= n,
{
    let mut j = i;
    while j < n && char_is_text(s.get_char(j))
        invariant
            n == s@.len(),
            i <= j <= n,
            text_end(s@, i as int) == text_end(s@, j as int),
        decreases n - j,
    {
        j = j + 1;
    }
    j
}

/// Finds [`symbol_end`] of the position.
fn scan_symbol_end(s: &str, n: usize, i: usize) -> (r: usize)
    requires
        n == s@.len(),
        i <= n,
    ensures
        r as int == symbol_end(s@, i as int),
        i <= r <= n,
{
    let mut j = i;
    while j < n && char_is_symbol(s.get_char(j))
        invariant
            n == s@.len(),
            i <= j <= n,
            symbol_end(s@, i as int) == symbol_end(s@, j as int),
        decreases n - j,
    {
        j = j + 1;
    }
    j
}

/// Finds [`digits_end`] of the position.
fn scan_digits_end(s: &str, n: usize, i: usize) -> (r: usize)
    requires
        n == s@.len(),
        i <= n,
    ensures
        r as int == digits_end(s@, i as int),
        i <= r <= n,
{
    let mut j = i;
    while j < n && char_is_digit(s.get_char(j))
        invariant
            n == s@.len(),
            i <= j <= n,
            digits_end(s@, i as int) == digits_end(s@, j as int),
        decreases n - j,
    {
        j = j + 1;
    }
    j
}

/// Finds [`name_end`] of the position.
fn scan_name_end(s: &str, n: usize, i: usize) -> (r: usize)
    requires
        n == s@.len(),
        i <= n,
    ensures
        r as int == name_end(s@, i as int),
        i <= r <= n,
{
    let mut j = i;
    while j < n && char_is_name(s.get_char(j))
        invariant
            n == s@.len(),
            i <= j <= n,
            name_end(s@, i as int) == name_end(s@, j as int),
        decreases n - j,
    {
        j = j + 1;
    }
    j
}

/// Finds [`value_end`] of the position.
fn scan_value_end(s: &str, n: usize, i: usize) -> (r: usize)
    requires
        n == s@.len(),
        i <= n,
    ensures
        r as int == value_end(s@, i as int),
        i <= r <= n,
{
    let mut j = i;
    while j < n && char_is_value(s.get_char(j))
        invariant
            n == s@.len(),
            i <= j <= n,
            value_end(s@, i as int) == value_end(s@, j as int),
        decreases n - j,
    {
        j = j + 1;
    }
    j
}

// ---------------------------------------------------------------------
// Small unsigned numbers written in decimal.
// ---------------------------------------------------------------------

/// The numeric value of a digit sequence, most significant digit first.
pub open spec fn digits_seq_val(v: Seq<char>) -> int
    decreases v.len(),
{
    if v.len() == 0 {
        0
    } else {
        digits_seq_val(v.drop_last()) * 10 + digit_val(v.last())
    }
}

/// Every character of `v` is a decimal digit.
pub open spec fn all_digits(v: Seq<char>) -> bool {
    forall|i: int| 0 <= i < v.len() ==> is_digit(#[trigger] v[i])
}

/// The text with one leading plus sign removed, as an unsigned-integer
/// parse allows.
pub open spec fn strip_plus(v: Seq<char>) -> Seq<char> {
    if v.len() > 0 && v[0] == '+' {
        v.skip(1)
    } else {
        v
    }
}

/// The value of a non-empty run of digits when it fits in a `u8`, and the
/// zero default otherwise.
pub open spec fn u8_of_digits(v: Seq<char>) -> u8 {
    if v.len() > 0 && all_digits(v) && 0 <= digits_seq_val(v) <= 255 {
        digits_seq_val(v) as u8
    } else {
        0
    }
}

/// The numeric field a piece of text yields: its decimal value when the
/// text (after an optional leading plus sign) is a non-empty run of
/// digits whose value fits in the field, and the zero default otherwise.
/// This is the permissive fallback the tree builder applies to numeric
/// directive values and chord extensions.
pub open spec fn u8_of_text(v: Seq<char>) -> u8 {
    u8_of_digits(strip_plus(v))
}

/// Reads a `u8` field from text, exactly as [`u8_of_text`] says.
fn parse_u8_text(t: &str) -> (r: u8)
    ensures
        r == u8_of_text(t@),
{
    let tn = t.unicode_len();
    let v: &str = if tn > 0 && t.get_char(0) == '+' {
        t.substring_char(1, tn)
    } else {
        t
    };
    proof {
        assert(v@ =~= strip_plus(t@));
    }
    let n = v.unicode_len();
    if n == 0 {
        proof {
            assert(u8_of_digits(v@) == 0);
            assert(u8_of_text(t@) == 0);
        }
        return 0;
    }
    let mut acc: u32 = 0;
    let mut j: usize = 0;
    while j < n
        invariant
            n == v@.len(),
            v@ == strip_plus(t@),
            0 <= j <= n,
            all_digits(v@.take(j as int)),
            digits_seq_val(v@.take(j as int)) >= 0,
            digits_seq_val(v@.take(j as int)) <= 255 ==> acc == digits_seq_val(
                v@.take(j as int),
            ),
            digits_seq_val(v@.take(j as int)) > 255 ==> acc > 255,
            acc <= 2569,
        decreases n - j,
    {
        let c = v.get_char(j);
        if !char_is_digit(c) {
            proof {
                assert(v@[j as int] == c);
                assert(!all_digits(v@));
            }
            return 0;
        }
        let d = digit_value(c);
        let base: u32 = if acc > 255 {
            256
        } else {
            acc
        };
        acc = base * 10 + (d as u32);
        proof {
            let pre = v@.take(j as int);
            let post = v@.take(j as int + 1);
            assert(post.drop_last() =~= pre);
            assert(post.last() == v@[j as int]);
            assert(digit_val(c) >= 0 && digit_val(c) <= 9);
            assert(digits_seq_val(post) == digits_seq_val(pre) * 10 + digit_val(c));
        }
        j = j + 1;
    }
    proof {
        assert(v@.take(n as int) =~= v@);
    }
    if acc <= 255 {
        acc as u8
    } else {
        0
    }
}

// ---------------------------------------------------------------------
// Chords.
// ---------------------------------------------------------------------

/// The optional minor or major marker after the root note: `m` sets the
/// minor flag, `M` clears it, anything else leaves it clear.
pub open spec fn spec_chord_minor(s: Seq<char>, j: int) -> (bool, int) {
    if 0 <= j < s.len() && s[j] == 'm' {
        (true, j + 1)
    } else if 0 <= j < s.len() && s[j] == 'M' {
        (false, j + 1)
    } else {
        (false, j)
    }
}

/// The optional free-text quality token: the (possibly empty) run of
/// symbol characters.
pub open spec fn spec_chord_symbol(s: Seq<char>, j: int) -> (Seq<char>, int) {
    (s.subrange(j, symbol_end(s, j)), symbol_end(s, j))
}

/// The optional numeric extension: a run of digits read as a `u8` field
/// (zero when absent).
pub open spec fn spec_chord_number(s: Seq<char>, j: int) -> (u8, int) {
    if 0 <= j < s.len() && is_digit(s[j]) {
        (u8_of_text(s.subrange(j, digits_end(s, j))), digits_end(s, j))
    } else {
        (0, j)
    }
}

/// The optional `/bass` suffix: a slash followed by a note sets the bass
/// pitch; without it (or when no note follows the slash) the bass stays
/// at the root and nothing is consumed.
pub open spec fn spec_chord_bass(s: Seq<char>, j: int, root: Note) -> (Note, int) {
    if 0 <= j < s.len() && s[j] == '/' {
        match spec_parse_note(s, j + 1) {
            Some((b, k)) => (b, k),
            None => (root, j),
        }
    } else {
        (root, j)
    }
}

/// The chord fields after its root note was read: minor marker, quality
/// token, extension, bass clause, in that order. The root note sets both
/// root and bass; the bass clause overrides the bass alone.
pub open spec fn spec_chord_after_note(s: Seq<char>, j: int, root: Note) -> (ChordView, int) {
    let (minor, j2) = spec_chord_minor(s, j);
    let (others, j3) = spec_chord_symbol(s, j2);
    let (number, j4) = spec_chord_number(s, j3);
    let (bass, j5) = spec_chord_bass(s, j4, root);
    (ChordView { root, minor, others, number, bass }, j5)
}

/// Parses a chord at position `i`: a note, then the optional markers,
/// quality, extension and bass. `None` when no note stands at `i`.
pub open spec fn spec_parse_chord(s: Seq<char>, i: int) -> Option<(ChordView, int)> {
    match spec_parse_note(s, i) {
        Some((root, j)) => Some(spec_chord_after_note(s, j, root)),
        None => None,
    }
}

/// The scanned runs stay inside the input.
proof fn lemma_symbol_end_bounds(s: Seq<char>, i: int)
    requires
        0 <= i <= s.len(),
    ensures
        i <= symbol_end(s, i) <= s.len(),
    decreases s.len() - i,
{
    if 0 <= i < s.len() && is_symbol_char(s[i]) {
        lemma_symbol_end_bounds(s, i + 1);
    }
}

/// Every character of a quality-symbol run is a symbol character.
proof fn lemma_symbol_run_chars(s: Seq<char>, i: int)
    requires
        0 <= i <= s.len(),
    ensures
        forall|t: int| i <= t < symbol_end(s, i) ==> is_symbol_char(#[trigger] s[t]),
    decreases s.len() - i,
{
    if 0 <= i < s.len() && is_symbol_char(s[i]) {
        lemma_symbol_run_chars(s, i + 1);
    }
}

/// A chord read by the parser holds no slash in its free-text quality
/// token (the grammar reserves the slash for the bass clause), so its
/// rendering shows a slash suffix exactly when the chord is a slash
/// chord: when its bass differs from its root.
pub proof fn lemma_parsed_chord_slash(s: Seq<char>, i: int)
    requires
        0 <= i <= s.len(),
        spec_parse_chord(s, i) is Some,
    ensures
        ({
            let c = (spec_parse_chord(s, i)->0).0;
            &&& c.bass != c.root ==> crate::format::chord_name(c).contains('/')
            &&& c.bass == c.root ==> !crate::format::chord_name(c).contains('/')
        }),
{
    let c = (spec_parse_chord(s, i)->0).0;
    let (root, j) = spec_parse_note(s, i)->0;
    lemma_note_marks_bounds(s, i + 1, letter_pitch(s[i]));
    let (minor, j2) = spec_chord_minor(s, j);
    lemma_symbol_end_bounds(s, j2);
    lemma_symbol_run_chars(s, j2);
    let e = symbol_end(s, j2);
    assert(c.others == s.subrange(j2, e));
    assert(!c.others.contains('/')) by {
        if c.others.contains('/') {
            let t = choose|t: int| 0 <= t < c.others.len() && c.others[t] == '/';
            assert(s[j2 + t] == '/');
            assert(is_symbol_char(s[j2 + t]));
        }
    };
    crate::format::lemma_chord_name_slash(c);
}

/// Parses a chord at position `i` of `s`, exactly as [`spec_parse_chord`]
/// says.
fn chord_at(s: &str, n: usize, i: usize) -> (r: Option<(Chord, usize)>)
    requires
        n == s@.len(),
        i <= n,
    ensures
        r is Some <==> spec_parse_chord(s@, i as int) is Some,
        r matches Some(p) ==> {
            &&& spec_parse_chord(s@, i as int) matches Some(q) && p.0@ == q.0 && p.1 as int == q.1
            &&& i < p.1 <= n
        },
{
    match note_at(s, n, i) {
        None => None,
        Some((root, j)) => {
            let (minor, j2): (bool, usize) = if j < n && s.get_char(j) == 'm' {
                (true, j + 1)
            } else if j < n && s.get_char(j) == 'M' {
                (false, j + 1)
            } else {
                (false, j)
            };
            let j3 = scan_symbol_end(s, n, j2);
            let others = s.substring_char(j2, j3).to_owned();
            let (number, j4): (u8, usize) = if j3 < n && char_is_digit(s.get_char(j3)) {
                let e = scan_digits_end(s, n, j3);
                let num = parse_u8_text(s.substring_char(j3, e));
                (num, e)
            } else {
                (0u8, j3)
            };
            let (bass, j5): (Note, usize) = if j4 < n && s.get_char(j4) == '/' {
                match note_at(s, n, j4 + 1) {
                    Some((b, k)) => (b, k),
                    None => (root, j4),
                }
            } else {
                (root, j4)
            };
            let c = Chord { root, minor, others, number, bass };
            proof {
                let q = spec_chord_after_note(s@, j as int, root);
                assert(c@ =~= q.0);
            }
            Some((c, j5))
        },
    }
}

/// A bracketed chord token: `[`, a chord, `]`.
pub open spec fn spec_chord_token(s: Seq<char>, i: int) -> Option<(ChordView, int)> {
    if 0 <= i < s.len() && s[i] == '[' {
        match spec_parse_chord(s, i + 1) {
            Some((c, j)) => if j < s.len() && s[j] == ']' {
                Some((c, j + 1))
            } else {
                None
            },
            None => None,
        }
    } else {
        None
    }
}

/// Parses a bracketed chord token at position `i`, exactly as
/// [`spec_chord_token`] says; a failure names the rule expected at the
/// offset where matching stopped.
fn chord_token_at(s: &str, n: usize, i: usize) -> (r: Result<(Chord, usize), ParseError>)
    requires
        n == s@.len(),
        i < n,
        s@[i as int] == '[',
    ensures
        r is Ok <==> spec_chord_token(s@, i as int) is Some,
        r matches Ok(p) ==> {
            &&& spec_chord_token(s@, i as int) matches Some(q) && p.0@ == q.0 && p.1 as int == q.1
            &&& i < p.1 <= n
        },
        r matches Err(e) ==> e.position <= n,
{
    match chord_at(s, n, i + 1) {
        None => Err(ParseError { rule: ParseRule::Note, position: i + 1 }),
        Some((c, j)) => {
            if j < n && s.get_char(j) == ']' {
                Ok((c, j + 1))
            } else {
                Err(ParseError { rule: ParseRule::Chord, position: j })
            }
        },
    }
}

// ---------------------------------------------------------------------
// Lines.
// ---------------------------------------------------------------------

/// The views of a sequence of chunks.
spec fn chunk_views(v: Seq<Chunk>) -> Seq<ChunkView> {
    Seq::new(v.len(), |i: int| v[i]@)
}

/// The views of a sequence of lines.
spec fn line_views(v: Seq<Line>) -> Seq<Seq<ChunkView>> {
    Seq::new(v.len(), |i: int| v[i]@)
}

/// The text run stays inside the input.
proof fn lemma_text_end_bounds(s: Seq<char>, i: int)
    requires
        0 <= i <= s.len(),
    ensures
        i <= text_end(s, i) <= s.len(),
    decreases s.len() - i,
{
    if 0 <= i < s.len() && is_text_char(s[i]) {
        lemma_text_end_bounds(s, i + 1);
    }
}

/// Collects the chunks of a line from position `i` onward: bracketed
/// chord tokens and literal text runs, in source order, until a character
/// that cannot start a chunk (or the end of the input). `None` when a
/// chord token is malformed.
pub open spec fn spec_line_chunks(s: Seq<char>, i: int, acc: Seq<ChunkView>) -> Option<
    (Seq<ChunkView>, int),
>
    decreases s.len() - i,
{
    if 0 <= i < s.len() && s[i] == '[' {
        match spec_chord_token(s, i) {
            Some((c, j)) => if i < j <= s.len() {
                spec_line_chunks(s, j, acc.push(ChunkView::Chord(c)))
            } else {
                None
            },
            None => None,
        }
    } else if 0 <= i < s.len() && is_text_char(s[i]) {
        let e = text_end(s, i);
        if i < e <= s.len() {
            spec_line_chunks(s, e, acc.push(ChunkView::Lyrics(s.subrange(i, e))))
        } else {
            None
        }
    } else {
        Some((acc, i))
    }
}

/// Parses a line at position `i`: at least one chunk. `None` when no
/// chunk stands at `i` or a chord token is malformed.
pub open spec fn spec_parse_line(s: Seq<char>, i: int) -> Option<(Seq<ChunkView>, int)> {
    match spec_line_chunks(s, i, Seq::<ChunkView>::empty()) {
        Some((cs, j)) => if cs.len() > 0 {
            Some((cs, j))
        } else {
            None
        },
        None => None,
    }
}

/// Parses a line at position `i` of `s`, exactly as [`spec_parse_line`]
/// says; a failure names the rule expected at the offset where matching
/// stopped.
fn line_at(s: &str, n: usize, i: usize) -> (r: Result<(Line, usize), ParseError>)
    requires
        n == s@.len(),
        i <= n,
    ensures
        r is Ok <==> spec_parse_line(s@, i as int) is Some,
        r matches Ok(p) ==> {
            &&& spec_parse_line(s@, i as int) matches Some(q) && p.0@ == q.0 && p.1 as int == q.1
            &&& i < p.1 <= n
        },
        r matches Err(e) ==> e.position <= n,
{
    let mut chunks: Vec<Chunk> = Vec::new();
    let mut pos: usize = i;
    proof {
        assert(chunk_views(chunks@) =~= Seq::<ChunkView>::empty());
    }
    while pos < n && (s.get_char(pos) == '[' || char_is_text(s.get_char(pos)))
        invariant
            n == s@.len(),
            i <= pos <= n,
            spec_line_chunks(s@, i as int, Seq::<ChunkView>::empty()) == spec_line_chunks(
                s@,
                pos as int,
                chunk_views(chunks@),
            ),
            chunks@.len() > 0 ==> i < pos,
        decreases n - pos,
    {
        let ghost pos0: int = pos as int;
        let ghost cv0: Seq<ChunkView> = chunk_views(chunks@);
        if s.get_char(pos) == '[' {
            match chord_token_at(s, n, pos) {
                Ok((c, j)) => {
                    chunks.push(Chunk::Chord(c));
                    pos = j;
                    proof {
                        assert(chunk_views(chunks@) =~= cv0.push(ChunkView::Chord(c@)));
                        assert(spec_line_chunks(s@, pos0, cv0) == spec_line_chunks(
                            s@,
                            pos as int,
                            cv0.push(ChunkView::Chord(c@)),
                        ));
                    }
                },
                Err(e) => {
                    return Err(e);
                },
            }
        } else {
            let e = scan_text_end(s, n, pos);
            proof {
                lemma_text_end_bounds(s@, pos as int + 1);
            }
            let t = s.substring_char(pos, e).to_owned();
            chunks.push(Chunk::Lyrics(t));
            pos = e;
            proof {
                assert(chunk_views(chunks@) =~= cv0.push(
                    ChunkView::Lyrics(s@.subrange(pos0, e as int)),
                ));
                assert(spec_line_chunks(s@, pos0, cv0) == spec_line_chunks(
                    s@,
                    pos as int,
                    cv0.push(ChunkView::Lyrics(s@.subrange(pos0, e as int))),
                ));
            }
        }
    }
    if chunks.len() > 0 {
        let r = Line(chunks);
        proof {
            assert(r@ =~= chunk_views(chunks@));
        }
        Ok((r, pos))
    } else {
        proof {
            assert(chunk_views(chunks@) =~= Seq::<ChunkView>::empty());
        }
        Err(ParseError { rule: ParseRule::Line, position: i })
    }
}

// ---------------------------------------------------------------------
// Paragraphs.
// ---------------------------------------------------------------------

/// The position after a line break at `j`: past the break (one character,
/// or two for a carriage return followed by a newline) and past the
/// indentation of the next line.
pub open spec fn after_break(s: Seq<char>, j: int) -> int {
    if 0 <= j < s.len() && s[j] == '\r' && j + 1 < s.len() && s[j + 1] == '\n' {
        skip_inline_ws(s, j + 2)
    } else {
        skip_inline_ws(s, j + 1)
    }
}

/// Collects consecutive lines from position `i` onward: a line, then —
/// when a line break is followed (after indentation) by a character that
/// can start a line — the following lines. The paragraph ends before a
/// blank line, a directive or the end of the input, leaving the final
/// line break unconsumed.
pub open spec fn spec_paragraph_lines(
    s: Seq<char>,
    i: int,
    acc: Seq<Seq<ChunkView>>,
) -> Option<(Seq<Seq<ChunkView>>, int)>
    decreases s.len() - i,
{
    match spec_parse_line(s, i) {
        None => None,
        Some((l, j)) => {
            let acc2 = acc.push(l);
            if i < j <= s.len() && j < s.len() && is_line_break(s[j]) {
                let m = after_break(s, j);
                if j < m <= s.len() && m < s.len() && is_line_start(s[m]) {
                    spec_paragraph_lines(s, m, acc2)
                } else {
                    Some((acc2, j))
                }
            } else {
                Some((acc2, j))
            }
        },
    }
}

/// Parses a paragraph at position `i`: one or more consecutive lines.
pub open spec fn spec_parse_paragraph(s: Seq<char>, i: int) -> Option<(Seq<Seq<ChunkView>>, int)> {
    spec_paragraph_lines(s, i, Seq::<Seq<ChunkView>>::empty())
}

/// Parses a paragraph at position `i` of `s`, exactly as
/// [`spec_parse_paragraph`] says; a failure names the rule expected at
/// the offset where matching stopped.
fn paragraph_at(s: &str, n: usize, i: usize) -> (r: Result<(Paragraph, usize), ParseError>)
    requires
        n == s@.len(),
        i <= n,
    ensures
        r is Ok <==> spec_parse_paragraph(s@, i as int) is Some,
        r matches Ok(p) ==> {
            &&& spec_parse_paragraph(s@, i as int) matches Some(q) && p.0@ == q.0 && p.1 as int
                == q.1
            &&& i < p.1 <= n
        },
        r matches Err(e) ==> e.position <= n,
{
    let mut lines: Vec<Line> = Vec::new();
    let mut pos: usize = i;
    proof {
        assert(line_views(lines@) =~= Seq::<Seq<ChunkView>>::empty());
    }
    loop
        invariant
            n == s@.len(),
            i <= pos <= n,
            spec_parse_paragraph(s@, i as int) == spec_paragraph_lines(
                s@,
                pos as int,
                line_views(lines@),
            ),
        decreases n - pos,
    {
        let ghost pos0: int = pos as int;
        let ghost lv0: Seq<Seq<ChunkView>> = line_views(lines@);
        match line_at(s, n, pos) {
            Err(e) => {
                return Err(e);
            },
            Ok((l, j)) => {
                lines.push(l);
                proof {
                    assert(line_views(lines@) =~= lv0.push(l@));
                }
                if j < n && char_is_break(s.get_char(j)) {
                    let base: usize = if s.get_char(j) == '\r' && j + 1 < n && s.get_char(j + 1)
                        == '\n' {
                        j + 2
                    } else {
                        j + 1
                    };
                    let m = scan_skip_inline_ws(s, n, base);
                    proof {
                        assert(m as int == after_break(s@, j as int));
                    }
                    if m < n && char_is_line_start(s.get_char(m)) {
                        pos = m;
                        proof {
                            assert(spec_paragraph_lines(s@, pos0, lv0) == spec_paragraph_lines(
                                s@,
                                pos as int,
                                lv0.push(l@),
                            ));
                        }
                    } else {
                        let r = Paragraph(lines);
                        proof {
                            assert(r@ =~= line_views(lines@));
                        }
                        return Ok((r, j));
                    }
                } else {
                    let r = Paragraph(lines);
                    proof {
                        assert(r@ =~= line_views(lines@));
                    }
                    return Ok((r, j));
                }
            },
        }
    }
}

// ---------------------------------------------------------------------
// Matching fixed words and comparing text.
// ---------------------------------------------------------------------

/// The word `w` stands at position `i` of `s`.
pub open spec fn starts_with_at(s: Seq<char>, i: int, w: Seq<char>) -> bool {
    &&& 0 <= i
    &&& i + w.len() <= s.len()
    &&& s.subrange(i, i + w.len()) == w
}

/// Whether the word `w` stands at position `i` of `s`.
fn matches_at(s: &str, n: usize, i: usize, w: &str) -> (r: bool)
    requires
        n == s@.len(),
        i <= n,
    ensures
        r == starts_with_at(s@, i as int, w@),
{
    let wn = w.unicode_len();
    if wn > n - i {
        return false;
    }
    let mut q: usize = 0;
    while q < wn
        invariant
            n == s@.len(),
            wn == w@.len(),
            i + wn <= n,
            0 <= q <= wn,
            forall|t: int| 0 <= t < q ==> s@[i + t] == w@[t],
        decreases wn - q,
    {
        if s.get_char(i + q) != w.get_char(q) {
            proof {
                if starts_with_at(s@, i as int, w@) {
                    assert(s@.subrange(i as int, i as int + w@.len())[q as int] == w@[q as int]);
                }
            }
            return false;
        }
        q = q + 1;
    }
    proof {
        assert(s@.subrange(i as int, i as int + w@.len()) =~= w@);
    }
    true
}

/// Whether two pieces of text hold the same characters.
fn chars_eq(a: &str, b: &str) -> (r: bool)
    ensures
        r == (a@ == b@),
{
    let an = a.unicode_len();
    let bn = b.unicode_len();
    if an != bn {
        proof {
            if a@ == b@ {
                assert(a@.len() == b@.len());
            }
        }
        return false;
    }
    let mut q: usize = 0;
    while q < an
        invariant
            an == a@.len(),
            bn == b@.len(),
            an == bn,
            0 <= q <= an,
            forall|t: int| 0 <= t < q ==> a@[t] == b@[t],
        decreases an - q,
    {
        if a.get_char(q) != b.get_char(q) {
            proof {
                if a@ == b@ {
                    assert(a@[q as int] == b@[q as int]);
                }
            }
            return false;
        }
        q = q + 1;
    }
    proof {
        assert(a@ =~= b@);
    }
    true
}

// ---------------------------------------------------------------------
// Directives.
// ---------------------------------------------------------------------

/// Parses a directive at position `i`: `{`, a name, and either the
/// closing brace at once, or `: value` up to the closing brace, or (for a
/// name followed by other text, which carries no value) that text up to
/// the closing brace. `None` when no closing brace stands on the same
/// line.
pub open spec fn spec_parse_directive(s: Seq<char>, i: int) -> Option<
    ((Seq<char>, Option<Seq<char>>), int),
> {
    if 0 <= i < s.len() && s[i] == '{' {
        let ne = name_end(s, i + 1);
        let name = s.subrange(i + 1, ne);
        if ne < s.len() && s[ne] == '}' {
            Some(((name, None), ne + 1))
        } else if ne < s.len() && s[ne] == ':' {
            let vs = skip_inline_ws(s, ne + 1);
            let ve = value_end(s, vs);
            if ve < s.len() && s[ve] == '}' {
                Some(((name, Some(s.subrange(vs, ve))), ve + 1))
            } else {
                None
            }
        } else if ne < s.len() && is_value_char(s[ne]) {
            let je = value_end(s, ne);
            if je < s.len() && s[je] == '}' {
                Some(((name, None), je + 1))
            } else {
                None
            }
        } else {
            None
        }
    } else {
        None
    }
}

/// The empty text when a directive carries no value.
pub open spec fn value_or_empty(v: Option<Seq<char>>) -> Seq<char> {
    match v {
        Some(x) => x,
        None => Seq::<char>::empty(),
    }
}

/// Folds one directive into the song being built: `title` and `artist`
/// copy their value verbatim (empty when absent); `capo` reads its value
/// as a number, falling back to zero when the value is malformed or
/// absent; every other name is ignored.
pub open spec fn spec_apply_directive(
    sv: SongView,
    name: Seq<char>,
    value: Option<Seq<char>>,
) -> SongView {
    if name == "title"@ {
        SongView { title: value_or_empty(value), ..sv }
    } else if name == "artist"@ {
        SongView { artist: value_or_empty(value), ..sv }
    } else if name == "capo"@ {
        SongView { capo: u8_of_text(value_or_empty(value)), ..sv }
    } else {
        sv
    }
}

// ---------------------------------------------------------------------
// Sections: comment, chorus, verse.
// ---------------------------------------------------------------------

/// Parses a comment at position `i` (which holds a `{comment:` opener):
/// the value after the separator is itself a line, and the closing brace
/// must follow it.
pub open spec fn spec_parse_comment(s: Seq<char>, i: int) -> Option<(Seq<ChunkView>, int)> {
    let vs = skip_inline_ws(s, i + 9);
    match spec_parse_line(s, vs) {
        None => None,
        Some((l, j)) => if j < s.len() && s[j] == '}' {
            Some((l, j + 1))
        } else {
            None
        },
    }
}

/// Parses a chorus at position `i` (which holds a `{soc}` opener): a
/// paragraph between the start-of-chorus and end-of-chorus markers,
/// blank space allowed around it.
pub open spec fn spec_parse_chorus(s: Seq<char>, i: int) -> Option<(Seq<Seq<ChunkView>>, int)> {
    let p = skip_blank(s, i + 5);
    match spec_parse_paragraph(s, p) {
        None => None,
        Some((para, j)) => {
            let q = skip_blank(s, j);
            if starts_with_at(s, q, "{eoc}"@) {
                Some((para, q + 5))
            } else {
                None
            }
        },
    }
}

/// Parses one section at position `i`: a chorus block, a comment, or a
/// bare paragraph read as a verse.
pub open spec fn spec_parse_section(s: Seq<char>, i: int) -> Option<(SectionView, int)> {
    if starts_with_at(s, i, "{soc}"@) {
        match spec_parse_chorus(s, i) {
            Some((p, k)) => Some((SectionView::Chorus(p), k)),
            None => None,
        }
    } else if starts_with_at(s, i, "{comment:"@) {
        match spec_parse_comment(s, i) {
            Some((l, k)) => Some((SectionView::Comment(l), k)),
            None => None,
        }
    } else if 0 <= i < s.len() && is_line_start(s[i]) {
        match spec_parse_paragraph(s, i) {
            Some((p, k)) => Some((SectionView::Verse(p), k)),
            None => None,
        }
    } else {
        None
    }
}

/// Parses a comment at position `i` of `s`, exactly as
/// [`spec_parse_comment`] says.
fn comment_at(s: &str, n: usize, i: usize) -> (r: Result<(Line, usize), ParseError>)
    requires
        n == s@.len(),
        i <= n,
        starts_with_at(s@, i as int, "{comment:"@),
    ensures
        r is Ok <==> spec_parse_comment(s@, i as int) is Some,
        r matches Ok(p) ==> {
            &&& spec_parse_comment(s@, i as int) matches Some(q) && p.0@ == q.0 && p.1 as int
                == q.1
            &&& i < p.1 <= n
        },
        r matches Err(e) ==> e.position <= n,
{
    proof {
        reveal_strlit("{comment:");
    }
    let vs = scan_skip_inline_ws(s, n, i + 9);
    match line_at(s, n, vs) {
        Err(e) => Err(e),
        Ok((l, j)) => {
            if j < n && s.get_char(j) == '}' {
                Ok((l, j + 1))
            } else {
                Err(ParseError { rule: ParseRule::Comment, position: j })
            }
        },
    }
}

/// Parses a chorus at position `i` of `s`, exactly as
/// [`spec_parse_chorus`] says.
fn chorus_at(s: &str, n: usize, i: usize) -> (r: Result<(Paragraph, usize), ParseError>)
    requires
        n == s@.len(),
        i <= n,
        starts_with_at(s@, i as int, "{soc}"@),
    ensures
        r is Ok <==> spec_parse_chorus(s@, i as int) is Some,
        r matches Ok(p) ==> {
            &&& spec_parse_chorus(s@, i as int) matches Some(q) && p.0@ == q.0 && p.1 as int
                == q.1
            &&& i < p.1 <= n
        },
        r matches Err(e) ==> e.position <= n,
{
    proof {
        reveal_strlit("{soc}");
    }
    let p = scan_skip_blank(s, n, i + 5);
    match paragraph_at(s, n, p) {
        Err(e) => Err(e),
        Ok((para, j)) => {
            let q = scan_skip_blank(s, n, j);
            if matches_at(s, n, q, "{eoc}") {
                proof {
                    reveal_strlit("{eoc}");
                }
                Ok((para, q + 5))
            } else {
                Err(ParseError { rule: ParseRule::Chorus, position: q })
            }
        },
    }
}

// ---------------------------------------------------------------------
// The document.
// ---------------------------------------------------------------------

/// The song every parse starts from: empty title and artist, capo zero,
/// no sections.
pub open spec fn spec_default_song() -> SongView {
    SongView {
        title: Seq::<char>::empty(),
        artist: Seq::<char>::empty(),
        capo: 0,
        sections: Seq::<SectionView>::empty(),
    }
}

/// Folds the items of the document into the song being built, from
/// position `i` onward: blank space is skipped, a `{soc}` block becomes a
/// chorus section, a `{comment: ...}` a comment section, any other
/// directive is dispatched on its name, and a bare paragraph becomes a
/// verse section. Succeeds only when the whole input is consumed.
pub open spec fn spec_doc_items(s: Seq<char>, i: int, acc: SongView) -> Option<SongView>
    decreases s.len() - i,
{
    let j = skip_blank(s, i);
    // The position guards below always hold of what the scanners return;
    // they stand in the definition so that each recursive step visibly
    // consumes input, which settles termination.
    if !(i <= j <= s.len()) {
        None
    } else if j == s.len() {
        Some(acc)
    } else if starts_with_at(s, j, "{soc}"@) {
        match spec_parse_chorus(s, j) {
            Some((p, k)) => if j < k <= s.len() {
                spec_doc_items(
                    s,
                    k,
                    SongView { sections: acc.sections.push(SectionView::Chorus(p)), ..acc },
                )
            } else {
                None
            },
            None => None,
        }
    } else if starts_with_at(s, j, "{comment:"@) {
        match spec_parse_comment(s, j) {
            Some((l, k)) => if j < k <= s.len() {
                spec_doc_items(
                    s,
                    k,
                    SongView { sections: acc.sections.push(SectionView::Comment(l)), ..acc },
                )
            } else {
                None
            },
            None => None,
        }
    } else if s[j] == '{' {
        match spec_parse_directive(s, j) {
            Some(((name, value), k)) => if j < k <= s.len() {
                spec_doc_items(s, k, spec_apply_directive(acc, name, value))
            } else {
                None
            },
            None => None,
        }
    } else if is_line_start(s[j]) {
        match spec_parse_paragraph(s, j) {
            Some((p, k)) => if j < k <= s.len() {
                spec_doc_items(
                    s,
                    k,
                    SongView { sections: acc.sections.push(SectionView::Verse(p)), ..acc },
                )
            } else {
                None
            },
            None => None,
        }
    } else {
        None
    }
}

/// Parses a complete document: the whole input is consumed, or the parse
/// fails.
pub open spec fn spec_parse_song(s: Seq<char>) -> Option<SongView> {
    spec_doc_items(s, 0, spec_default_song())
}

/// The directive-name and directive-value runs stay inside the input.
proof fn lemma_name_value_bounds(s: Seq<char>, i: int)
    requires
        0 <= i <= s.len(),
    ensures
        i <= name_end(s, i) <= s.len(),
        i <= value_end(s, i) <= s.len(),
    decreases s.len() - i,
{
    if 0 <= i < s.len() && is_name_char(s[i]) {
        lemma_name_value_bounds(s, i + 1);
    }
    if 0 <= i < s.len() && is_value_char(s[i]) {
        lemma_name_value_bounds(s, i + 1);
    }
}

/// Parses the whole document, exactly as [`spec_parse_song`] says.
fn document(s: &str) -> (r: Result<Song, ParseError>)
    ensures
        r is Ok <==> spec_parse_song(s@) is Some,
        r matches Ok(sg) ==> spec_parse_song(s@) matches Some(v) && sg@ == v,
        r matches Err(e) ==> e.position <= s@.len(),
{
    let n = s.unicode_len();
    let mut song = Song { title: String::new(), artist: String::new(), capo: 0, song: Vec::new() };
    let mut pos: usize = 0;
    proof {
        assert(song@ =~= spec_default_song());
    }
    loop
        invariant
            n == s@.len(),
            0 <= pos <= n,
            spec_parse_song(s@) == spec_doc_items(s@, pos as int, song@),
        decreases n - pos,
    {
        let ghost pos0: int = pos as int;
        let ghost sv0: SongView = song@;
        let j = scan_skip_blank(s, n, pos);
        if j == n {
            return Ok(song);
        }
        if matches_at(s, n, j, "{soc}") {
            match chorus_at(s, n, j) {
                Err(e) => {
                    return Err(e);
                },
                Ok((p, k)) => {
                    song.song.push(Section::Chorus(p));
                    pos = k;
                    proof {
                        assert(song@.sections =~= sv0.sections.push(SectionView::Chorus(p@)));
                        assert(song@ =~= (SongView {
                            sections: sv0.sections.push(SectionView::Chorus(p@)),
                            ..sv0
                        }));
                    }
                },
            }
        } else if matches_at(s, n, j, "{comment:") {
            match comment_at(s, n, j) {
                Err(e) => {
                    return Err(e);
                },
                Ok((l, k)) => {
                    song.song.push(Section::Comment(l));
                    pos = k;
                    proof {
                        assert(song@.sections =~= sv0.sections.push(SectionView::Comment(l@)));
                        assert(song@ =~= (SongView {
                            sections: sv0.sections.push(SectionView::Comment(l@)),
                            ..sv0
                        }));
                    }
                },
            }
        } else if s.get_char(j) == '{' {
            proof {
                lemma_name_value_bounds(s@, j as int + 1);
            }
            let ne = scan_name_end(s, n, j + 1);
            let ghost name: Seq<char> = s@.subrange(j as int + 1, ne as int);
            if ne < n && s.get_char(ne) == '}' {
                let name_s = s.substring_char(j + 1, ne);
                apply_directive(&mut song, name_s, None);
                pos = ne + 1;
                proof {
                    assert(spec_doc_items(s@, pos0, sv0) == spec_doc_items(s@, pos as int, song@));
                }
            } else if ne < n && s.get_char(ne) == ':' {
                let vs = scan_skip_inline_ws(s, n, ne + 1);
                let ve = scan_value_end(s, n, vs);
                if ve < n && s.get_char(ve) == '}' {
                    let name_s = s.substring_char(j + 1, ne);
                    let val_s = s.substring_char(vs, ve);
                    apply_directive(&mut song, name_s, Some(val_s));
                    pos = ve + 1;
                    proof {
                        assert(spec_doc_items(s@, pos0, sv0) == spec_doc_items(
                            s@,
                            pos as int,
                            song@,
                        ));
                    }
                } else {
                    return Err(ParseError { rule: ParseRule::Directive, position: ve });
                }
            } else if ne < n && char_is_value(s.get_char(ne)) {
                let je = scan_value_end(s, n, ne);
                if je < n && s.get_char(je) == '}' {
                    let name_s = s.substring_char(j + 1, ne);
                    apply_directive(&mut song, name_s, None);
                    pos = je + 1;
                    proof {
                        assert(spec_doc_items(s@, pos0, sv0) == spec_doc_items(
                            s@,
                            pos as int,
                            song@,
                        ));
                    }
                } else {
                    return Err(ParseError { rule: ParseRule::Directive, position: je });
                }
            } else {
                return Err(ParseError { rule: ParseRule::Directive, position: ne });
            }
        } else if char_is_line_start(s.get_char(j)) {
            match paragraph_at(s, n, j) {
                Err(e) => {
                    return Err(e);
                },
                Ok((p, k)) => {
                    song.song.push(Section::Verse(p));
                    pos = k;
                    proof {
                        assert(song@.sections =~= sv0.sections.push(SectionView::Verse(p@)));
                        assert(song@ =~= (SongView {
                            sections: sv0.sections.push(SectionView::Verse(p@)),
                            ..sv0
                        }));
                    }
                },
            }
        } else {
            return Err(ParseError { rule: ParseRule::Document, position: j });
        }
    }
}

/// Applies one directive to the song being built, exactly as
/// [`spec_apply_directive`] says.
fn apply_directive(song: &mut Song, name: &str, value: Option<&str>) -> (r: ())
    ensures
        final(song)@ == spec_apply_directive(
            old(song)@,
            name@,
            match value {
                Some(v) => Some(v@),
                None => None,
            },
        ),
{
    let ghost vopt: Option<Seq<char>> = match value {
        Some(v) => Some(v@),
        None => None,
    };
    if chars_eq(name, "title") {
        song.title = match value {
            Some(v) => v.to_owned(),
            None => String::new(),
        };
        proof {
            assert(final(song)@ =~= spec_apply_directive(old(song)@, name@, vopt));
        }
    } else if chars_eq(name, "artist") {
        song.artist = match value {
            Some(v) => v.to_owned(),
            None => String::new(),
        };
        proof {
            assert(final(song)@ =~= spec_apply_directive(old(song)@, name@, vopt));
        }
    } else if chars_eq(name, "capo") {
        song.capo = match value {
            Some(v) => parse_u8_text(v),
            None => 0,
        };
        proof {
            assert(u8_of_text(Seq::<char>::empty()) == 0);
            assert(final(song)@ =~= spec_apply_directive(old(song)@, name@, vopt));
        }
    } else {
        proof {
            assert(final(song)@ =~= spec_apply_directive(old(song)@, name@, vopt));
        }
    }
}

// ---------------------------------------------------------------------
// Whole-input entry points.
// ---------------------------------------------------------------------

/// A complete input read as a single note.
pub open spec fn spec_note_full(s: Seq<char>) -> Option<Note> {
    match spec_parse_note(s, 0) {
        Some((nt, j)) => if j == s.len() {
            Some(nt)
        } else {
            None
        },
        None => None,
    }
}

/// A complete input read as a single chord.
pub open spec fn spec_chord_full(s: Seq<char>) -> Option<ChordView> {
    match spec_parse_chord(s, 0) {
        Some((c, j)) => if j == s.len() {
            Some(c)
        } else {
            None
        },
        None => None,
    }
}

/// A complete input read as a single line.
pub open spec fn spec_line_full(s: Seq<char>) -> Option<Seq<ChunkView>> {
    match spec_parse_line(s, 0) {
        Some((l, j)) => if j == s.len() {
            Some(l)
        } else {
            None
        },
        None => None,
    }
}

/// A complete input read as a single paragraph.
pub open spec fn spec_paragraph_full(s: Seq<char>) -> Option<Seq<Seq<ChunkView>>> {
    match spec_parse_paragraph(s, 0) {
        Some((p, j)) => if j == s.len() {
            Some(p)
        } else {
            None
        },
        None => None,
    }
}

/// A complete input read as a single section.
pub open spec fn spec_section_full(s: Seq<char>) -> Option<SectionView> {
    match spec_parse_section(s, 0) {
        Some((sec, j)) => if j == s.len() {
            Some(sec)
        } else {
            None
        },
        None => None,
    }
}

/// Parses one section at position `i` of `s`, exactly as
/// [`spec_parse_section`] says.
fn section_at(s: &str, n: usize, i: usize) -> (r: Result<(Section, usize), ParseError>)
    requires
        n == s@.len(),
        i <= n,
    ensures
        r is Ok <==> spec_parse_section(s@, i as int) is Some,
        r matches Ok(p) ==> {
            &&& spec_parse_section(s@, i as int) matches Some(q) && p.0@ == q.0 && p.1 as int
                == q.1
            &&& i < p.1 <= n
        },
        r matches Err(e) ==> e.position <= n,
{
    if matches_at(s, n, i, "{soc}") {
        match chorus_at(s, n, i) {
            Err(e) => Err(e),
            Ok((p, k)) => Ok((Section::Chorus(p), k)),
        }
    } else if matches_at(s, n, i, "{comment:") {
        match comment_at(s, n, i) {
            Err(e) => Err(e),
            Ok((l, k)) => Ok((Section::Comment(l), k)),
        }
    } else if i < n && char_is_line_start(s.get_char(i)) {
        match paragraph_at(s, n, i) {
            Err(e) => Err(e),
            Ok((p, k)) => Ok((Section::Verse(p), k)),
        }
    } else {
        Err(ParseError { rule: ParseRule::Paragraph, position: i })
    }
}

impl Note {
    /// Parses a complete input as one note: the whole input must be
    /// consumed, or the parse fails with the rule expected and the offset
    /// where matching stopped.
    pub fn from_str(s: &str) -> (r: Result<Note, ParseError>)
        ensures
            r is Ok <==> spec_note_full(s@) is Some,
            r matches Ok(nt) ==> spec_note_full(s@) matches Some(v) && nt == v,
            r matches Err(e) ==> e.position <= s@.len(),
    {
        let n = s.unicode_len();
        match note_at(s, n, 0) {
            None => Err(ParseError { rule: ParseRule::Note, position: 0 }),
            Some((nt, j)) => {
                if j == n {
                    Ok(nt)
                } else {
                    Err(ParseError { rule: ParseRule::Note, position: j })
                }
            },
        }
    }
}

impl Chord {
    /// Parses a complete input as one chord: the whole input must be
    /// consumed, or the parse fails with the rule expected and the offset
    /// where matching stopped.
    pub fn from_str(s: &str) -> (r: Result<Chord, ParseError>)
        ensures
            r is Ok <==> spec_chord_full(s@) is Some,
            r matches Ok(c) ==> spec_chord_full(s@) matches Some(v) && c@ == v,
            r matches Err(e) ==> e.position <= s@.len(),
    {
        let n = s.unicode_len();
        match chord_at(s, n, 0) {
            None => Err(ParseError { rule: ParseRule::Chord, position: 0 }),
            Some((c, j)) => {
                if j == n {
                    Ok(c)
                } else {
                    Err(ParseError { rule: ParseRule::Chord, position: j })
                }
            },
        }
    }
}

impl Line {
    /// Parses a complete input as one line of chord tokens and lyric
    /// text: the whole input must be consumed, or the parse fails with
    /// the rule expected and the offset where matching stopped.
    pub fn from_str(s: &str) -> (r: Result<Line, ParseError>)
        ensures
            r is Ok <==> spec_line_full(s@) is Some,
            r matches Ok(l) ==> spec_line_full(s@) matches Some(v) && l@ == v,
            r matches Err(e) ==> e.position <= s@.len(),
    {
        let n = s.unicode_len();
        match line_at(s, n, 0) {
            Err(e) => Err(e),
            Ok((l, j)) => {
                if j == n {
                    Ok(l)
                } else {
                    Err(ParseError { rule: ParseRule::Line, position: j })
                }
            },
        }
    }
}

impl Paragraph {
    /// Parses a complete input as one paragraph of consecutive lines:
    /// the whole input must be consumed, or the parse fails with the rule
    /// expected and the offset where matching stopped.
    pub fn from_str(s: &str) -> (r: Result<Paragraph, ParseError>)
        ensures
            r is Ok <==> spec_paragraph_full(s@) is Some,
            r matches Ok(p) ==> spec_paragraph_full(s@) matches Some(v) && p@ == v,
            r matches Err(e) ==> e.position <= s@.len(),
    {
        let n = s.unicode_len();
        match paragraph_at(s, n, 0) {
            Err(e) => Err(e),
            Ok((p, j)) => {
                if j == n {
                    Ok(p)
                } else {
                    Err(ParseError { rule: ParseRule::Paragraph, position: j })
                }
            },
        }
    }
}

impl Section {
    /// Parses a complete input as one section (chorus, comment or
    /// verse): the whole input must be consumed, or the parse fails with
    /// the rule expected and the offset where matching stopped.
    pub fn from_str(s: &str) -> (r: Result<Section, ParseError>)
        ensures
            r is Ok <==> spec_section_full(s@) is Some,
            r matches Ok(sec) ==> spec_section_full(s@) matches Some(v) && sec@ == v,
            r matches Err(e) ==> e.position <= s@.len(),
    {
        let n = s.unicode_len();
        match section_at(s, n, 0) {
            Err(e) => Err(e),
            Ok((sec, j)) => {
                if j == n {
                    Ok(sec)
                } else {
                    Err(ParseError { rule: ParseRule::Paragraph, position: j })
                }
            },
        }
    }
}

impl Song {
    /// Parses a complete chordpro document into a song. The whole input
    /// must match the grammar; otherwise the parse fails with the rule
    /// expected and the offset where matching stopped, and the caller
    /// gets nothing. Unknown directive names and malformed numeric
    /// directive values do not fail the parse: they fall back to the
    /// documented defaults.
    pub fn from_str(s: &str) -> (r: Result<Song, ParseError>)
        ensures
            r is Ok <==> spec_parse_song(s@) is Some,
            r matches Ok(sg) ==> spec_parse_song(s@) matches Some(v) && sg@ == v,
            r matches Err(e) ==> e.position <= s@.len(),
    {
        document(s)
    }
}

/// The parser for the chordpro grammar; each method reads a complete
/// input as one grammar rule.
pub struct SongParser;

impl SongParser {
    /// Parses a complete input as one note.
    pub fn parse_note(s: &str) -> (r: Result<Note, ParseError>)
        ensures
            r is Ok <==> spec_note_full(s@) is Some,
            r matches Ok(nt) ==> spec_note_full(s@) matches Some(v) && nt == v,
            r matches Err(e) ==> e.position <= s@.len(),
    {
        Note::from_str(s)
    }

    /// Parses a complete input as one chord.
    pub fn parse_chord(s: &str) -> (r: Result<Chord, ParseError>)
        ensures
            r is Ok <==> spec_chord_full(s@) is Some,
            r matches Ok(c) ==> spec_chord_full(s@) matches Some(v) && c@ == v,
            r matches Err(e) ==> e.position <= s@.len(),
    {
        Chord::from_str(s)
    }

    /// Parses a complete input as one line.
    pub fn parse_line(s: &str) -> (r: Result<Line, ParseError>)
        ensures
            r is Ok <==> spec_line_full(s@) is Some,
            r matches Ok(l) ==> spec_line_full(s@) matches Some(v) && l@ == v,
            r matches Err(e) ==> e.position <= s@.len(),
    {
        Line::from_str(s)
    }

    /// Parses a complete input as one paragraph.
    pub fn parse_paragraph(s: &str) -> (r: Result<Paragraph, ParseError>)
        ensures
            r is Ok <==> spec_paragraph_full(s@) is Some,
            r matches Ok(p) ==> spec_paragraph_full(s@) matches Some(v) && p@ == v,
            r matches Err(e) ==> e.position <= s@.len(),
    {
        Paragraph::from_str(s)
    }

    /// Parses a complete input as one section.
    pub fn parse_section(s: &str) -> (r: Result<Section, ParseError>)
        ensures
            r is Ok <==> spec_section_full(s@) is Some,
            r matches Ok(sec) ==> spec_section_full(s@) matches Some(v) && sec@ == v,
            r matches Err(e) ==> e.position <= s@.len(),
    {
        Section::from_str(s)
    }

    /// Parses a complete chordpro document into a song.
    pub fn parse_song(s: &str) -> (r: Result<Song, ParseError>)
        ensures
            r is Ok <==> spec_parse_song(s@) is Some,
            r matches Ok(sg) ==> spec_parse_song(s@) matches Some(v) && sg@ == v,
            r matches Err(e) ==> e.position <= s@.len(),
    {
        Song::from_str(s)
    }
}

} // verus!
