//! The font collection and the render entry point.
//!
//! A collection is built up by `push` calls that validate the font
//! bytes; `render` shapes the text with the first font (later entries
//! are inert, a documented limitation of the current design), plans the
//! line breaks, refreshes the shaped cache and hands back an iterator
//! bound to the shaped buffer, the break set and the row drop.

use vstd::prelude::*;
use crate::iter::TextPathIterator;
use crate::iter::all_commands;
use crate::iter::outlines_view;
use crate::linebreak::line_breaks;
use crate::linebreak::plan;
use crate::path::PathCommand;
use crate::path::RawSegment;
use crate::shape::PositionedGlyph;
use crate::shape::ascender_of;
use crate::shape::char_pairs;
use crate::shape::char_pairs_of;
use crate::shape::face_ascender;
use crate::shape::face_parses;
use crate::shape::face_units_per_em;
use crate::shape::parse_ok;
use crate::shape::shape_text;
use crate::shape::shaped_of;
use crate::shape::upem_of;

verus! {

/// One font: its validated bytes, its scalar metrics and its outline
/// table, indexed by glyph identifier.
struct StyledFont<'a> {
    /// The validated font container bytes.
    data: &'a [u8],
    /// The font's ascender, in font units.
    ascender: i16,
    /// The font's grid resolution.
    units_per_em: i32,
    /// Each glyph's outline, in font units.
    outlines: Vec<Vec<RawSegment>>,
}

/// A collection of fonts used as a single font.
pub struct Font<'a> {
    fonts: Vec<StyledFont<'a>>,
    /// The shaped buffer of the most recent render call, kept for
    /// reuse across calls.
    shaped_cache: Option<Vec<PositionedGlyph>>,
}

/// The command sequence one render call produces: shape the text with
/// the font bytes, plan the breaks over the byte-indexed characters
/// zipped with the shaped positions, and concatenate every glyph's
/// transformed outline.
pub open spec fn render_model(
    data: Seq<u8>,
    outlines: Seq<Seq<RawSegment>>,
    ascender: int,
    text: Seq<char>,
    row_length: int,
    row_drop: int,
) -> Seq<PathCommand> {
    all_commands(
        shaped_of(data, text),
        outlines,
        ascender,
        plan(char_pairs_of(text), shaped_of(data, text), row_length),
        row_drop,
    )
}

/// Rendering twice with identical arguments on the same collection
/// produces element-wise identical command sequences: the model is a
/// function of the collection's first font and the arguments alone, and
/// a render call leaves every font entry unchanged.
pub proof fn lemma_render_idempotent(
    first: TextPathIterator,
    second: TextPathIterator,
    data: Seq<u8>,
    outlines: Seq<Seq<RawSegment>>,
    ascender: int,
    text: Seq<char>,
    row_length: int,
    row_drop: int,
)
    requires
        first.remaining() == render_model(data, outlines, ascender, text, row_length, row_drop),
        second.remaining() == render_model(data, outlines, ascender, text, row_length, row_drop),
    ensures
        first.remaining() == second.remaining(),
{
}

fn copy_segments(src: &Vec<RawSegment>) -> (r: Vec<RawSegment>)
    ensures
        r@ == src@,
{
    let n = src.len();
    let mut r: Vec<RawSegment> = Vec::new();
    let mut i: usize = 0;
    while i < n
        invariant
            n == src@.len(),
            0 <= i <= n,
            r@ == src@.subrange(0, i as int),
        decreases n - i,
    {
        r.push(src[i]);
        proof {
            assert(src@.subrange(0, i + 1) =~= src@.subrange(0, i as int).push(src@[i as int]));
        }
        i = i + 1;
    }
    proof {
        assert(src@.subrange(0, n as int) =~= src@);
    }
    r
}

fn copy_outlines(src: &Vec<Vec<RawSegment>>) -> (r: Vec<Vec<RawSegment>>)
    ensures
        outlines_view(r@) == outlines_view(src@),
{
    let n = src.len();
    let mut r: Vec<Vec<RawSegment>> = Vec::new();
    let mut i: usize = 0;
    while i < n
        invariant
            n == src@.len(),
            0 <= i <= n,
            r@.len() == i,
            forall|j: int| 0 <= j < i ==> (#[trigger] r@[j])@ == src@[j]@,
        decreases n - i,
    {
        let inner = copy_segments(&src[i]);
        r.push(inner);
        i = i + 1;
    }
    proof {
        assert(outlines_view(r@) =~= outlines_view(src@));
    }
    r
}

fn copy_glyphs(src: &Vec<PositionedGlyph>) -> (r: Vec<PositionedGlyph>)
    ensures
        r@ == src@,
{
    let n = src.len();
    let mut r: Vec<PositionedGlyph> = Vec::new();
    let mut i: usize = 0;
    while i < n
        invariant
            n == src@.len(),
            0 <= i <= n,
            r@ == src@.subrange(0, i as int),
        decreases n - i,
    {
        r.push(src[i]);
        proof {
            assert(src@.subrange(0, i + 1) =~= src@.subrange(0, i as int).push(src@[i as int]));
        }
        i = i + 1;
    }
    proof {
        assert(src@.subrange(0, n as int) =~= src@);
    }
    r
}

impl<'a> Font<'a> {
    /// How many fonts the collection holds.
    pub closed spec fn fonts_len(self) -> nat {
        self.fonts@.len()
    }

    /// The bytes of the font at position `i`.
    pub closed spec fn font_data(self, i: int) -> Seq<u8> {
        self.fonts@[i].data@
    }

    /// The ascender of the font at position `i`, in font units.
    pub closed spec fn font_ascender(self, i: int) -> int {
        self.fonts@[i].ascender as int
    }

    /// The grid resolution of the font at position `i`.
    pub closed spec fn font_upem(self, i: int) -> int {
        self.fonts@[i].units_per_em as int
    }

    /// The outline table of the font at position `i`.
    pub closed spec fn font_outlines(self, i: int) -> Seq<Seq<RawSegment>> {
        outlines_view(self.fonts@[i].outlines@)
    }

    /// The cached shaped buffer, present once a render call has run and
    /// reflecting exactly the most recent call's text.
    pub closed spec fn cache_view(self) -> Option<Seq<PositionedGlyph>> {
        match self.shaped_cache {
            Some(v) => Some(v@),
            None => None,
        }
    }

    /// Create a new empty `Font`.  Add fonts with `push()`.
    pub fn new() -> (r: Font<'a>)
        ensures
            r.fonts_len() == 0,
            r.cache_view() is None,
    {
        Font { fonts: Vec::new(), shaped_cache: None }
    }

    /// How many fonts the collection holds.
    pub fn font_count(&self) -> (r: usize)
        ensures
            r == self.fonts_len(),
    {
        self.fonts.len()
    }

    /// The first font's grid resolution: divide rendered coordinates by
    /// it to reach normalized units.
    pub fn units_per_em(&self) -> (r: i32)
        requires
            self.fonts_len() > 0,
        ensures
            r as int == self.font_upem(0),
    {
        self.fonts[0].units_per_em
    }

    /// Add one font's bytes and outline table to this `Font`.  The
    /// bytes are validated by the font parser; malformed bytes yield
    /// `None` and no collection.  The outline table gives each glyph's
    /// outline in font units, indexed by glyph identifier, as the
    /// font-parsing collaborator extracted it.
    pub fn push(self, font_data: &'a [u8], outlines: Vec<Vec<RawSegment>>) -> (r: Option<Font<'a>>)
        ensures
            (r is Some) <==> face_parses(font_data@),
            font_data@.len() == 0 ==> r is None,
            r matches Some(f) ==> {
                &&& f.fonts_len() == self.fonts_len() + 1
                &&& (forall|i: int|
                    0 <= i < self.fonts_len() ==> f.font_data(i) == self.font_data(i)
                        && f.font_ascender(i) == self.font_ascender(i) && f.font_upem(i)
                        == self.font_upem(i) && f.font_outlines(i) == self.font_outlines(i))
                &&& f.font_data(self.fonts_len() as int) == font_data@
                &&& f.font_ascender(self.fonts_len() as int) == ascender_of(font_data@)
                &&& f.font_upem(self.fonts_len() as int) == upem_of(font_data@)
                &&& f.font_outlines(self.fonts_len() as int) == outlines_view(outlines@)
                &&& f.cache_view() == self.cache_view()
            },
    {
        if parse_ok(font_data) {
            let ascender = face_ascender(font_data);
            let units_per_em = face_units_per_em(font_data);
            let Font { mut fonts, shaped_cache } = self;
            fonts.push(StyledFont { data: font_data, ascender, units_per_em, outlines });
            Some(Font { fonts, shaped_cache })
        } else {
            None
        }
    }

    /// Render some text.  Returns an iterator.
    ///  - `text`: text to render.
    ///  - `row_length`: x position for line wrapping, in font units,
    ///    compared strictly (a line landing exactly on it does not
    ///    break).
    ///  - `row_drop`: y shift for new lines, in font units.
    ///
    /// Only the first font is consulted; later entries are inert.  The
    /// iterator produces exactly the model's command sequence and owns
    /// its data, while the collection's cache is refreshed to the
    /// shaped buffer of this call.
    pub fn render(&mut self, text: &str, row_length: i32, row_drop: i32) -> (r: TextPathIterator)
        requires
            old(self).fonts_len() > 0,
        ensures
            final(self).fonts_len() == old(self).fonts_len(),
            forall|i: int|
                0 <= i < old(self).fonts_len() ==> {
                    &&& final(self).font_data(i) == old(self).font_data(i)
                    &&& final(self).font_ascender(i) == old(self).font_ascender(i)
                    &&& final(self).font_upem(i) == old(self).font_upem(i)
                    &&& final(self).font_outlines(i) == old(self).font_outlines(i)
                },
            r.wf(),
            r.pen_x() == 0,
            r.pen_y() == 0,
            r.outline_table() == old(self).font_outlines(0),
            r.ascender_units() == old(self).font_ascender(0),
            r.drop_units() == row_drop as int,
            r.breaks_view() == plan(char_pairs_of(text@), r.shaped_view(), row_length as int),
            face_parses(old(self).font_data(0)) ==> r.shaped_view() == shaped_of(
                old(self).font_data(0),
                text@,
            ) && r.remaining() == render_model(
                old(self).font_data(0),
                old(self).font_outlines(0),
                old(self).font_ascender(0),
                text@,
                row_length as int,
                row_drop as int,
            ),
            !face_parses(old(self).font_data(0)) ==> r.shaped_view() == Seq::<
                PositionedGlyph,
            >::empty() && r.remaining() == Seq::<PathCommand>::empty(),
            final(self).cache_view() == Some(r.shaped_view()),
    {
        let data = self.fonts[0].data;
        let ascender = self.fonts[0].ascender;
        let outlines = copy_outlines(&self.fonts[0].outlines);
        let shaped: Vec<PositionedGlyph> = if parse_ok(data) {
            shape_text(data, text)
        } else {
            Vec::new()
        };
        let pairs = char_pairs(text);
        let breaks = line_breaks(&pairs, &shaped, row_length);
        let cache_copy = copy_glyphs(&shaped);
        self.shaped_cache = Some(cache_copy);
        let r = TextPathIterator::new(shaped, outlines, ascender as i32, breaks, row_drop);
        proof {
            if !face_parses(data@) {
                assert(r.remaining() =~= Seq::<PathCommand>::empty());
            }
        }
        r
    }
}

impl<'a> Default for Font<'a> {
    /// The empty collection.
    fn default() -> (r: Font<'a>)
        ensures
            r.fonts_len() == 0,
            r.cache_view() is None,
    {
        Font { fonts: Vec::new(), shaped_cache: None }
    }
}

} // verus!
