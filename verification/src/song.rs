//! The song tree: chunk (lyric text or chord) -> line -> paragraph ->
//! section (chorus, verse or comment) -> song, with the mathematical view
//! of each level.

use vstd::prelude::*;
use crate::chords::{Chord, ChordView};

verus! {

/// The value of a chunk: literal lyric text or one chord.
#[verifier::ext_equal]
pub ghost enum ChunkView {
    Lyrics(Seq<char>),
    Chord(ChordView),
}

/// The value of a section.
#[verifier::ext_equal]
pub ghost enum SectionView {
    Chorus(Seq<Seq<ChunkView>>),
    Verse(Seq<Seq<ChunkView>>),
    Comment(Seq<ChunkView>),
}

/// The value of a song: its metadata and the ordered sections.
#[verifier::ext_equal]
pub ghost struct SongView {
    pub title: Seq<char>,
    pub artist: Seq<char>,
    pub capo: u8,
    pub sections: Seq<SectionView>,
}

/// The smallest document unit: a run of literal lyric text or one chord.
#[derive(Debug, PartialEq, Clone)]
pub enum Chunk {
    /// Some lyrics, kept exactly as they stand in the source text.
    Lyrics(String),
    /// A chord.
    Chord(Chord),
}

impl View for Chunk {
    type V = ChunkView;

    open spec fn view(&self) -> ChunkView {
        match self {
            Chunk::Lyrics(s) => ChunkView::Lyrics(s@),
            Chunk::Chord(c) => ChunkView::Chord(c@),
        }
    }
}

/// Lyrics with chords: an ordered run of chunks, in left-to-right text
/// order.
#[derive(Debug, PartialEq, Clone)]
pub struct Line(pub Vec<Chunk>);

impl View for Line {
    type V = Seq<ChunkView>;

    open spec fn view(&self) -> Seq<ChunkView> {
        Seq::new(self.0@.len(), |i: int| self.0@[i]@)
    }
}

impl Default for Line {
    /// The default line holds no chunks.
    fn default() -> (r: Line)
        ensures
            r@ == Seq::<ChunkView>::empty(),
    {
        let r = Line(Vec::new());
        proof {
            assert(r@ =~= Seq::<ChunkView>::empty());
        }
        r
    }
}

/// A block of consecutive lines with no directive between them.
#[derive(Debug, PartialEq, Clone)]
pub struct Paragraph(pub Vec<Line>);

impl View for Paragraph {
    type V = Seq<Seq<ChunkView>>;

    open spec fn view(&self) -> Seq<Seq<ChunkView>> {
        Seq::new(self.0@.len(), |i: int| self.0@[i]@)
    }
}

impl Default for Paragraph {
    /// The default paragraph holds no lines.
    fn default() -> (r: Paragraph)
        ensures
            r@ == Seq::<Seq<ChunkView>>::empty(),
    {
        let r = Paragraph(Vec::new());
        proof {
            assert(r@ =~= Seq::<Seq<ChunkView>>::empty());
        }
        r
    }
}

/// A song section: a chorus or a verse carrying a paragraph, or a comment
/// carrying exactly one line.
#[derive(Debug, PartialEq, Clone)]
pub enum Section {
    /// The chorus.
    Chorus(Paragraph),
    /// A verse.
    Verse(Paragraph),
    /// A comment; it carries a single line, never a paragraph.
    Comment(Line),
}

impl View for Section {
    type V = SectionView;

    open spec fn view(&self) -> SectionView {
        match self {
            Section::Chorus(p) => SectionView::Chorus(p@),
            Section::Verse(p) => SectionView::Verse(p@),
            Section::Comment(l) => SectionView::Comment(l@),
        }
    }
}

/// A song: title, artist and capo metadata, and the ordered sections.
#[derive(Debug, PartialEq, Clone)]
pub struct Song {
    pub title: String,
    pub artist: String,
    pub capo: u8,
    pub song: Vec<Section>,
}

impl View for Song {
    type V = SongView;

    open spec fn view(&self) -> SongView {
        SongView {
            title: self.title@,
            artist: self.artist@,
            capo: self.capo,
            sections: Seq::new(self.song@.len(), |i: int| self.song@[i]@),
        }
    }
}

impl Default for Song {
    /// The default song: empty title and artist, capo 0, no sections.
    fn default() -> (r: Song)
        ensures
            r@.title == Seq::<char>::empty(),
            r@.artist == Seq::<char>::empty(),
            r@.capo == 0,
            r@.sections == Seq::<SectionView>::empty(),
    {
        let r = Song { title: String::new(), artist: String::new(), capo: 0, song: Vec::new() };
        proof {
            assert(r@.sections =~= Seq::<SectionView>::empty());
        }
        r
    }
}

} // verus!
