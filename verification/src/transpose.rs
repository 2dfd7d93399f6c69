//! Transposing the chords of a [`Song`]: every chord's root and bass pitch
//! is shifted by a fixed semitone count; structure, text, metadata and the
//! other chord fields are untouched.

use vstd::prelude::*;
use vstd::arithmetic::div_mod::lemma_mod_multiples_vanish;
use crate::chords::{
    lemma_pitch_add_add, lemma_pitch_add_octaves, pitch_add, Chord, ChordView,
};
use crate::song::{Chunk, ChunkView, Line, Paragraph, Section, SectionView, Song, SongView};

verus! {

/// The value of `c` with root and bass raised by `k` semitones; every other
/// field is unchanged.
pub open spec fn chord_transposed(c: ChordView, k: int) -> ChordView {
    ChordView {
        root: pitch_add(c.root, k),
        minor: c.minor,
        others: c.others,
        number: c.number,
        bass: pitch_add(c.bass, k),
    }
}

/// Transposition of one chunk: lyric text is untouched, a chord is
/// transposed.
pub open spec fn chunk_transposed(c: ChunkView, k: int) -> ChunkView {
    match c {
        ChunkView::Lyrics(s) => ChunkView::Lyrics(s),
        ChunkView::Chord(ch) => ChunkView::Chord(chord_transposed(ch, k)),
    }
}

/// Transposition of a line: each chunk independently.
pub open spec fn line_transposed(l: Seq<ChunkView>, k: int) -> Seq<ChunkView> {
    l.map_values(|c: ChunkView| chunk_transposed(c, k))
}

/// Transposition of a paragraph: each line independently.
pub open spec fn paragraph_transposed(p: Seq<Seq<ChunkView>>, k: int) -> Seq<Seq<ChunkView>> {
    p.map_values(|l: Seq<ChunkView>| line_transposed(l, k))
}

/// Transposition of a section: its variant is kept, its contents are
/// transposed.
pub open spec fn section_transposed(s: SectionView, k: int) -> SectionView {
    match s {
        SectionView::Chorus(p) => SectionView::Chorus(paragraph_transposed(p, k)),
        SectionView::Verse(p) => SectionView::Verse(paragraph_transposed(p, k)),
        SectionView::Comment(l) => SectionView::Comment(line_transposed(l, k)),
    }
}

/// Transposition of a whole song: every section is transposed; title,
/// artist and capo are untouched.
pub open spec fn song_transposed(s: SongView, k: int) -> SongView {
    SongView {
        title: s.title,
        artist: s.artist,
        capo: s.capo,
        sections: s.sections.map_values(|sec: SectionView| section_transposed(sec, k)),
    }
}

/// Transposing a chord by `a` and then by `b` equals transposing it once by
/// `a + b`.
pub proof fn lemma_chord_transposed_compose(c: ChordView, a: int, b: int)
    ensures
        chord_transposed(chord_transposed(c, a), b) == chord_transposed(c, a + b),
{
    lemma_pitch_add_add(c.root, a, b);
    lemma_pitch_add_add(c.bass, a, b);
}

/// Transposing a line by `a` and then by `b` equals transposing it once by
/// `a + b`.
pub proof fn lemma_line_transposed_compose(l: Seq<ChunkView>, a: int, b: int)
    ensures
        line_transposed(line_transposed(l, a), b) == line_transposed(l, a + b),
{
    assert forall|i: int| 0 <= i < l.len() implies line_transposed(line_transposed(l, a), b)[i]
        == line_transposed(l, a + b)[i] by {
        match l[i] {
            ChunkView::Lyrics(_) => {},
            ChunkView::Chord(ch) => {
                lemma_chord_transposed_compose(ch, a, b);
            },
        }
    }
    assert(line_transposed(line_transposed(l, a), b) =~= line_transposed(l, a + b));
}

/// Transposing a paragraph by `a` and then by `b` equals transposing it
/// once by `a + b`.
pub proof fn lemma_paragraph_transposed_compose(p: Seq<Seq<ChunkView>>, a: int, b: int)
    ensures
        paragraph_transposed(paragraph_transposed(p, a), b) == paragraph_transposed(p, a + b),
{
    assert forall|i: int| 0 <= i < p.len() implies paragraph_transposed(
        paragraph_transposed(p, a),
        b,
    )[i] == paragraph_transposed(p, a + b)[i] by {
        lemma_line_transposed_compose(p[i], a, b);
    }
    assert(paragraph_transposed(paragraph_transposed(p, a), b) =~= paragraph_transposed(
        p,
        a + b,
    ));
}

/// Transposing a section by `a` and then by `b` equals transposing it once
/// by `a + b`.
pub proof fn lemma_section_transposed_compose(s: SectionView, a: int, b: int)
    ensures
        section_transposed(section_transposed(s, a), b) == section_transposed(s, a + b),
{
    match s {
        SectionView::Chorus(p) => lemma_paragraph_transposed_compose(p, a, b),
        SectionView::Verse(p) => lemma_paragraph_transposed_compose(p, a, b),
        SectionView::Comment(l) => lemma_line_transposed_compose(l, a, b),
    }
}

/// Transposing a song by `a` and then by `b` yields the same song as
/// transposing it once by `a + b`.
pub proof fn lemma_song_transposed_compose(s: SongView, a: int, b: int)
    ensures
        song_transposed(song_transposed(s, a), b) == song_transposed(s, a + b),
{
    assert forall|i: int| 0 <= i < s.sections.len() implies song_transposed(
        song_transposed(s, a),
        b,
    ).sections[i] == song_transposed(s, a + b).sections[i] by {
        lemma_section_transposed_compose(s.sections[i], a, b);
    }
    assert(song_transposed(song_transposed(s, a), b).sections =~= song_transposed(
        s,
        a + b,
    ).sections);
    assert(song_transposed(song_transposed(s, a), b) =~= song_transposed(s, a + b));
}

/// Transposing a chord by a multiple of twelve leaves it unchanged.
pub proof fn lemma_chord_transposed_octaves(c: ChordView, k: int)
    requires
        k % 12 == 0,
    ensures
        chord_transposed(c, k) == c,
{
    lemma_pitch_add_octaves(c.root, k);
    lemma_pitch_add_octaves(c.bass, k);
    assert(chord_transposed(c, k) =~= c);
}

/// Transposing a line by a multiple of twelve leaves it unchanged.
pub proof fn lemma_line_transposed_octaves(l: Seq<ChunkView>, k: int)
    requires
        k % 12 == 0,
    ensures
        line_transposed(l, k) == l,
{
    assert forall|i: int| 0 <= i < l.len() implies line_transposed(l, k)[i] == l[i] by {
        match l[i] {
            ChunkView::Lyrics(_) => {},
            ChunkView::Chord(ch) => {
                lemma_chord_transposed_octaves(ch, k);
            },
        }
    }
    assert(line_transposed(l, k) =~= l);
}

/// Transposing a paragraph by a multiple of twelve leaves it unchanged.
pub proof fn lemma_paragraph_transposed_octaves(p: Seq<Seq<ChunkView>>, k: int)
    requires
        k % 12 == 0,
    ensures
        paragraph_transposed(p, k) == p,
{
    assert forall|i: int| 0 <= i < p.len() implies paragraph_transposed(p, k)[i] == p[i] by {
        lemma_line_transposed_octaves(p[i], k);
    }
    assert(paragraph_transposed(p, k) =~= p);
}

/// Transposing a section by a multiple of twelve leaves it unchanged.
pub proof fn lemma_section_transposed_octaves(s: SectionView, k: int)
    requires
        k % 12 == 0,
    ensures
        section_transposed(s, k) == s,
{
    match s {
        SectionView::Chorus(p) => lemma_paragraph_transposed_octaves(p, k),
        SectionView::Verse(p) => lemma_paragraph_transposed_octaves(p, k),
        SectionView::Comment(l) => lemma_line_transposed_octaves(l, k),
    }
}

/// Transposing a song by any multiple of twelve (including zero) leaves it
/// unchanged, field by field.
pub proof fn lemma_song_transposed_octaves(s: SongView, k: int)
    requires
        k % 12 == 0,
    ensures
        song_transposed(s, k) == s,
{
    assert forall|i: int| 0 <= i < s.sections.len() implies song_transposed(s, k).sections[i]
        == s.sections[i] by {
        lemma_section_transposed_octaves(s.sections[i], k);
    }
    assert(song_transposed(s, k).sections =~= s.sections);
    assert(song_transposed(s, k) =~= s);
}

/// Chunk `b` is chunk `a` with `f` applied to its chord: lyric text is the
/// very same value, and a chord is replaced by a possible result of `f`.
pub open spec fn chunk_maps_to<F: Fn(Chord) -> Chord>(f: F, a: Chunk, b: Chunk) -> bool {
    match (a, b) {
        (Chunk::Lyrics(x), Chunk::Lyrics(y)) => x == y,
        (Chunk::Chord(c), Chunk::Chord(d)) => call_ensures(f, (c,), d),
        _ => false,
    }
}

/// Line `b` is line `a` with `f` applied to each chord chunk, in order.
pub open spec fn line_maps_to<F: Fn(Chord) -> Chord>(f: F, a: Line, b: Line) -> bool {
    &&& a.0@.len() == b.0@.len()
    &&& forall|i: int| 0 <= i < a.0@.len() ==> chunk_maps_to(f, a.0@[i], #[trigger] b.0@[i])
}

/// Paragraph `b` is paragraph `a` with `f` applied to each chord, line by
/// line.
pub open spec fn paragraph_maps_to<F: Fn(Chord) -> Chord>(f: F, a: Paragraph, b: Paragraph) -> bool {
    &&& a.0@.len() == b.0@.len()
    &&& forall|i: int| 0 <= i < a.0@.len() ==> line_maps_to(f, a.0@[i], #[trigger] b.0@[i])
}

/// Section `b` is section `a`, same variant, with `f` applied to each
/// chord of its contents.
pub open spec fn section_maps_to<F: Fn(Chord) -> Chord>(f: F, a: Section, b: Section) -> bool {
    match (a, b) {
        (Section::Chorus(p), Section::Chorus(q)) => paragraph_maps_to(f, p, q),
        (Section::Verse(p), Section::Verse(q)) => paragraph_maps_to(f, p, q),
        (Section::Comment(l), Section::Comment(m)) => line_maps_to(f, l, m),
        _ => false,
    }
}

/// Song `b` is song `a` with `f` applied to every chord: metadata and
/// structure are untouched, and each chord chunk holds a possible result
/// of `f` on the chord that stood there.
pub open spec fn song_maps_to<F: Fn(Chord) -> Chord>(f: F, a: Song, b: Song) -> bool {
    &&& b.title == a.title
    &&& b.artist == a.artist
    &&& b.capo == a.capo
    &&& a.song@.len() == b.song@.len()
    &&& forall|i: int| 0 <= i < a.song@.len() ==> section_maps_to(f, a.song@[i], #[trigger] b.song@[i])
}

/// `f` applied to each chord chunk of one line, consuming the old line.
fn map_line_chords<F: Fn(Chord) -> Chord>(l: Line, f: &F) -> (r: Line)
    requires
        forall|c: Chord| call_requires(*f, (c,)),
    ensures
        line_maps_to(*f, l, r),
{
    let ghost lv = l;
    let Line(chunks) = l;
    let ghost orig = chunks@;
    let mut rest = chunks;
    let mut out: Vec<Chunk> = Vec::new();
    while rest.len() > 0
        invariant
            forall|c: Chord| call_requires(*f, (c,)),
            out@.len() + rest@.len() == orig.len(),
            rest@ =~= orig.subrange(out@.len() as int, orig.len() as int),
            forall|i: int| 0 <= i < out@.len() ==> chunk_maps_to(*f, orig[i], #[trigger] out@[i]),
        decreases rest@.len(),
    {
        let c = rest.remove(0);
        match c {
            Chunk::Lyrics(s) => out.push(Chunk::Lyrics(s)),
            Chunk::Chord(ch) => out.push(Chunk::Chord(f(ch))),
        }
    }
    Line(out)
}

/// `f` applied to each chord of one paragraph, consuming the old value.
fn map_paragraph_chords<F: Fn(Chord) -> Chord>(p: Paragraph, f: &F) -> (r: Paragraph)
    requires
        forall|c: Chord| call_requires(*f, (c,)),
    ensures
        paragraph_maps_to(*f, p, r),
{
    let Paragraph(lines) = p;
    let ghost orig = lines@;
    let mut rest = lines;
    let mut out: Vec<Line> = Vec::new();
    while rest.len() > 0
        invariant
            forall|c: Chord| call_requires(*f, (c,)),
            out@.len() + rest@.len() == orig.len(),
            rest@ =~= orig.subrange(out@.len() as int, orig.len() as int),
            forall|i: int| 0 <= i < out@.len() ==> line_maps_to(*f, orig[i], #[trigger] out@[i]),
        decreases rest@.len(),
    {
        let l = rest.remove(0);
        out.push(map_line_chords(l, f));
    }
    Paragraph(out)
}

/// Applies `f` to every chord of the song, in place and in document order:
/// each chord chunk is replaced by `f` of the chord that stood there, and
/// nothing else — structure, lyric text and metadata — changes.
pub fn map_to_chords<F: Fn(Chord) -> Chord>(song: &mut Song, f: F)
    requires
        forall|c: Chord| call_requires(f, (c,)),
    ensures
        song_maps_to(f, *old(song), *final(song)),
{
    let mut taken = Song { title: String::new(), artist: String::new(), capo: 0, song: Vec::new() };
    core::mem::swap(song, &mut taken);
    let Song { title, artist, capo, song: sections } = taken;
    let ghost orig = sections@;
    let mut rest = sections;
    let mut out: Vec<Section> = Vec::new();
    while rest.len() > 0
        invariant
            forall|c: Chord| call_requires(f, (c,)),
            out@.len() + rest@.len() == orig.len(),
            rest@ =~= orig.subrange(out@.len() as int, orig.len() as int),
            forall|i: int| 0 <= i < out@.len() ==> section_maps_to(f, orig[i], #[trigger] out@[i]),
        decreases rest@.len(),
    {
        let sec = rest.remove(0);
        let mapped = match sec {
            Section::Chorus(p) => Section::Chorus(map_paragraph_chords(p, &f)),
            Section::Verse(p) => Section::Verse(map_paragraph_chords(p, &f)),
            Section::Comment(l) => Section::Comment(map_line_chords(l, &f)),
        };
        out.push(mapped);
    }
    *song = Song { title, artist, capo, song: out };
}

/// Transposes the chords of a song by a fixed semitone count.
pub struct Transposer {
    s: i8,
}

/// One chord transposed, consuming the old value.
fn transpose_chord(c: Chord, k: i8) -> (r: Chord)
    ensures
        r@ == chord_transposed(c@, k as int),
{
    let Chord { root, minor, others, number, bass } = c;
    Chord { root: root.add(k), minor, others, number, bass: bass.add(k) }
}

/// One chunk transposed, consuming the old value.
fn transpose_chunk(c: Chunk, k: i8) -> (r: Chunk)
    ensures
        r@ == chunk_transposed(c@, k as int),
{
    match c {
        Chunk::Lyrics(s) => Chunk::Lyrics(s),
        Chunk::Chord(ch) => Chunk::Chord(transpose_chord(ch, k)),
    }
}

/// One line transposed, consuming the old value.
fn transpose_line(l: Line, k: i8) -> (r: Line)
    ensures
        r@ == line_transposed(l@, k as int),
{
    let ghost lv = l@;
    let Line(chunks) = l;
    let ghost orig = chunks@;
    let mut rest = chunks;
    let mut out: Vec<Chunk> = Vec::new();
    while rest.len() > 0
        invariant
            out@.len() + rest@.len() == orig.len(),
            rest@ =~= orig.subrange(out@.len() as int, orig.len() as int),
            forall|i: int|
                0 <= i < out@.len() ==> #[trigger] out@[i]@ == chunk_transposed(
                    orig[i]@,
                    k as int,
                ),
        decreases rest@.len(),
    {
        let c = rest.remove(0);
        out.push(transpose_chunk(c, k));
    }
    let r = Line(out);
    proof {
        assert(r@ =~= line_transposed(lv, k as int));
    }
    r
}

/// One paragraph transposed, consuming the old value.
fn transpose_paragraph(p: Paragraph, k: i8) -> (r: Paragraph)
    ensures
        r@ == paragraph_transposed(p@, k as int),
{
    let ghost pv = p@;
    let Paragraph(lines) = p;
    let ghost orig = lines@;
    let mut rest = lines;
    let mut out: Vec<Line> = Vec::new();
    while rest.len() > 0
        invariant
            out@.len() + rest@.len() == orig.len(),
            rest@ =~= orig.subrange(out@.len() as int, orig.len() as int),
            forall|i: int|
                0 <= i < out@.len() ==> #[trigger] out@[i]@ == line_transposed(orig[i]@, k as int),
        decreases rest@.len(),
    {
        let l = rest.remove(0);
        out.push(transpose_line(l, k));
    }
    let r = Paragraph(out);
    proof {
        assert(r@ =~= paragraph_transposed(pv, k as int));
    }
    r
}

/// One section transposed, consuming the old value.
fn transpose_section(s: Section, k: i8) -> (r: Section)
    ensures
        r@ == section_transposed(s@, k as int),
{
    match s {
        Section::Chorus(p) => Section::Chorus(transpose_paragraph(p, k)),
        Section::Verse(p) => Section::Verse(transpose_paragraph(p, k)),
        Section::Comment(l) => Section::Comment(transpose_line(l, k)),
    }
}

impl Transposer {
    /// The semitone offset this transposer applies.
    pub closed spec fn semitones(&self) -> int {
        self.s as int
    }

    /// Creates a `Transposer` that shifts songs by the given number of
    /// semitones (positive = up, negative = down, any magnitude).
    pub fn new(semitones: i8) -> (r: Self)
        ensures
            r.semitones() == semitones as int,
    {
        Self { s: semitones }
    }

    /// Transposes the song in place: every chord's root and bass pitch is
    /// shifted by this transposer's offset; everything else is untouched.
    /// An offset that is a whole number of octaves is a no-op, since pitch
    /// classes are octave-invariant.
    pub fn apply_transpose(&self, song: &mut Song)
        ensures
            final(song)@ == song_transposed(old(song)@, self.semitones()),
    {
        let shifted: i32 = (self.s as i32) + 132;
        assert(shifted >= 0);
        let m: u32 = (shifted as u32) % 12;
        proof {
            lemma_mod_multiples_vanish(11, self.s as int, 12);
            assert(m as int == (self.s as int) % 12);
        }
        if m != 0 {
            let mut taken = Song {
                title: String::new(),
                artist: String::new(),
                capo: 0,
                song: Vec::new(),
            };
            core::mem::swap(song, &mut taken);
            let ghost sv = taken@;
            let Song { title, artist, capo, song: sections } = taken;
            let ghost orig = sections@;
            let mut rest = sections;
            let mut out: Vec<Section> = Vec::new();
            while rest.len() > 0
                invariant
                    out@.len() + rest@.len() == orig.len(),
                    rest@ =~= orig.subrange(out@.len() as int, orig.len() as int),
                    forall|i: int|
                        0 <= i < out@.len() ==> #[trigger] out@[i]@ == section_transposed(
                            orig[i]@,
                            self.semitones(),
                        ),
                decreases rest@.len(),
            {
                let sec = rest.remove(0);
                out.push(transpose_section(sec, self.s));
            }
            let r = Song { title, artist, capo, song: out };
            proof {
                assert(r@.sections =~= song_transposed(sv, self.semitones()).sections);
                assert(r@ =~= song_transposed(sv, self.semitones()));
            }
            *song = r;
        } else {
            proof {
                lemma_song_transposed_octaves(song@, self.semitones());
            }
        }
    }

    /// Transposes an owned song and returns the result, for callers that do
    /// not want in-place mutation.
    pub fn transpose(&self, song: Song) -> (r: Song)
        ensures
            r@ == song_transposed(song@, self.semitones()),
    {
        let mut song = song;
        self.apply_transpose(&mut song);
        song
    }
}

} // verus!
