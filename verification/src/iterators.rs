//! Read-only cursors over the song tree: the sections of a song, the lines
//! of a section, and the chunks of a line.
//!
//! A section's cursor hides the difference between the variants: a chorus
//! or verse yields the lines of its paragraph, a comment yields its single
//! line.

use vstd::prelude::*;
use crate::song::{Chunk, ChunkView, Line, Section, SectionView, Song};

verus! {

/// The lines of a section, in order: a chorus or verse yields its
/// paragraph's lines; a comment yields exactly its one line.
pub open spec fn section_lines(s: SectionView) -> Seq<Seq<ChunkView>> {
    match s {
        SectionView::Chorus(p) => p,
        SectionView::Verse(p) => p,
        SectionView::Comment(l) => seq![l],
    }
}

/// A cursor over the sections of a song.
#[derive(Clone, Copy)]
pub struct SongIterator<'a> {
    sections: &'a Vec<Section>,
    pos: usize,
}

impl<'a> SongIterator<'a> {
    /// The sections this cursor has not yielded yet.
    pub closed spec fn sections_left(&self) -> Seq<SectionView> {
        if self.pos <= self.sections@.len() {
            Seq::new(self.sections@.len(), |i: int| self.sections@[i]@).skip(self.pos as int)
        } else {
            Seq::<SectionView>::empty()
        }
    }

    /// Yields the next section, or `None` once every section was yielded.
    pub fn next(&mut self) -> (r: Option<&'a Section>)
        ensures
            old(self).sections_left().len() == 0 ==> r is None && final(self).sections_left()
                == old(self).sections_left(),
            old(self).sections_left().len() > 0 ==> r is Some && r->0@ == old(
                self,
            ).sections_left()[0] && final(self).sections_left() == old(
                self,
            ).sections_left().drop_first(),
    {
        let sections = self.sections;
        let pos = self.pos;
        if pos < sections.len() {
            self.pos = pos + 1;
            proof {
                assert(final(self).sections_left() =~= old(self).sections_left().drop_first());
            }
            Some(&sections[pos])
        } else {
            None
        }
    }
}

/// A cursor over the lines of one section.
#[derive(Clone, Copy)]
pub enum SectionIterator<'a> {
    /// Lines of a chorus or verse paragraph, with the count already
    /// yielded.
    Paragraph(&'a Vec<Line>, usize),
    /// The single line of a comment, with a flag saying whether it was
    /// already yielded.
    Line(&'a Line, bool),
}

impl<'a> SectionIterator<'a> {
    /// The lines this cursor has not yielded yet.
    pub open spec fn lines_left(&self) -> Seq<Seq<ChunkView>> {
        match *self {
            SectionIterator::Paragraph(lines, pos) => if pos <= lines@.len() {
                Seq::new(lines@.len(), |i: int| lines@[i]@).skip(pos as int)
            } else {
                Seq::<Seq<ChunkView>>::empty()
            },
            SectionIterator::Line(l, done) => if done {
                Seq::<Seq<ChunkView>>::empty()
            } else {
                seq![l@]
            },
        }
    }

    /// Yields the next line, or `None` once every line was yielded.
    pub fn next(&mut self) -> (r: Option<&'a Line>)
        ensures
            old(self).lines_left().len() == 0 ==> r is None && final(self).lines_left() == old(
                self,
            ).lines_left(),
            old(self).lines_left().len() > 0 ==> r is Some && r->0@ == old(self).lines_left()[0]
                && final(self).lines_left() == old(self).lines_left().drop_first(),
    {
        match *self {
            SectionIterator::Paragraph(lines, pos) => {
                if pos < lines.len() {
                    *self = SectionIterator::Paragraph(lines, pos + 1);
                    proof {
                        assert(final(self).lines_left() =~= old(self).lines_left().drop_first());
                    }
                    Some(&lines[pos])
                } else {
                    None
                }
            },
            SectionIterator::Line(l, done) => {
                if done {
                    None
                } else {
                    *self = SectionIterator::Line(l, true);
                    proof {
                        assert(final(self).lines_left() =~= old(self).lines_left().drop_first());
                    }
                    Some(l)
                }
            },
        }
    }
}

/// A cursor over the chunks of one line.
#[derive(Clone, Copy)]
pub struct LineIterator<'a> {
    chunks: &'a Vec<Chunk>,
    pos: usize,
}

impl<'a> LineIterator<'a> {
    /// The chunks this cursor has not yielded yet.
    pub closed spec fn chunks_left(&self) -> Seq<ChunkView> {
        if self.pos <= self.chunks@.len() {
            Seq::new(self.chunks@.len(), |i: int| self.chunks@[i]@).skip(self.pos as int)
        } else {
            Seq::<ChunkView>::empty()
        }
    }

    /// Yields the next chunk, or `None` once every chunk was yielded.
    pub fn next(&mut self) -> (r: Option<&'a Chunk>)
        ensures
            old(self).chunks_left().len() == 0 ==> r is None && final(self).chunks_left() == old(
                self,
            ).chunks_left(),
            old(self).chunks_left().len() > 0 ==> r is Some && r->0@ == old(self).chunks_left()[0]
                && final(self).chunks_left() == old(self).chunks_left().drop_first(),
    {
        let chunks = self.chunks;
        let pos = self.pos;
        if pos < chunks.len() {
            self.pos = pos + 1;
            proof {
                assert(final(self).chunks_left() =~= old(self).chunks_left().drop_first());
            }
            Some(&chunks[pos])
        } else {
            None
        }
    }
}

impl Song {
    /// A cursor over this song's sections, in document order.
    pub fn iter(&self) -> (r: SongIterator<'_>)
        ensures
            r.sections_left() == self@.sections,
    {
        let r = SongIterator { sections: &self.song, pos: 0 };
        proof {
            assert(r.sections_left() =~= self@.sections);
        }
        r
    }
}

impl Section {
    /// A cursor over this section's lines: the paragraph's lines for a
    /// chorus or verse, the single line for a comment.
    pub fn iter(&self) -> (r: SectionIterator<'_>)
        ensures
            r.lines_left() == section_lines(self@),
    {
        let r = match self {
            Section::Chorus(p) => SectionIterator::Paragraph(&p.0, 0),
            Section::Verse(p) => SectionIterator::Paragraph(&p.0, 0),
            Section::Comment(l) => SectionIterator::Line(l, false),
        };
        proof {
            assert(r.lines_left() =~= section_lines(self@));
        }
        r
    }
}

impl Line {
    /// A cursor over this line's chunks, in left-to-right order.
    pub fn iter(&self) -> (r: LineIterator<'_>)
        ensures
            r.chunks_left() == self@,
    {
        let r = LineIterator { chunks: &self.0, pos: 0 };
        proof {
            assert(r.chunks_left() =~= self@);
        }
        r
    }
}

} // verus!
