//! The lazy path iterator.
//!
//! A one-shot state machine over two nested cursors: the glyph cursor
//! walks the shaped buffer, and the command cursor walks a reusable
//! scratch buffer holding the current glyph's transformed outline.  Each
//! pull returns one path command, refilling the scratch buffer from the
//! next glyph when it runs dry and skipping glyphs with no outline
//! (their advance still moves the pen).  At a break index the pen's
//! x-component resets to zero and the row drop shifts its y-component.

use vstd::prelude::*;
use crate::path::COORD_LIMIT;
use crate::path::PathCommand;
use crate::path::RawSegment;
use crate::path::append_outline;
use crate::path::transform_outline;
use crate::shape::PositionedGlyph;

verus! {

/// A table of glyph outlines, indexed by glyph identifier, as sequences.
pub open spec fn outlines_view(outlines: Seq<Vec<RawSegment>>) -> Seq<Seq<RawSegment>> {
    outlines.map(|i: int, v: Vec<RawSegment>| v@)
}

/// The pen offset, in font units, before the glyph at index `k` is
/// drawn: each earlier glyph added its advance, and each earlier glyph
/// whose index is a break reset the x-component and applied the row
/// drop.
pub open spec fn pen_at(
    shaped: Seq<PositionedGlyph>,
    breaks: Seq<usize>,
    row_drop: int,
    k: int,
) -> (int, int)
    decreases k,
{
    if k <= 0 {
        (0, 0)
    } else {
        let p = pen_at(shaped, breaks, row_drop, k - 1);
        let g = shaped[k - 1];
        let ax: int = p.0 + g.x_advance;
        let ay: int = p.1 + g.y_advance;
        if breaks.contains((k - 1) as usize) {
            (0, ay + row_drop)
        } else {
            (ax, ay)
        }
    }
}

/// The path commands the glyph at index `k` contributes: its outline,
/// transformed with the pen offset combined with its shaping offset.  A
/// glyph identifier outside the outline table contributes nothing.
pub open spec fn glyph_cmds_at(
    shaped: Seq<PositionedGlyph>,
    outlines: Seq<Seq<RawSegment>>,
    ascender: int,
    breaks: Seq<usize>,
    row_drop: int,
    k: int,
) -> Seq<PathCommand> {
    let g = shaped[k];
    let pen = pen_at(shaped, breaks, row_drop, k);
    if (g.glyph_id as int) < outlines.len() {
        transform_outline(
            outlines[g.glyph_id as int],
            ascender,
            pen.0 + g.x_offset,
            pen.1 + g.y_offset,
        )
    } else {
        Seq::empty()
    }
}

/// All path commands contributed by the glyphs from index `k` on.
pub open spec fn cmds_from(
    shaped: Seq<PositionedGlyph>,
    outlines: Seq<Seq<RawSegment>>,
    ascender: int,
    breaks: Seq<usize>,
    row_drop: int,
    k: int,
) -> Seq<PathCommand>
    decreases shaped.len() - k,
{
    if k < 0 || k >= shaped.len() {
        Seq::empty()
    } else {
        glyph_cmds_at(shaped, outlines, ascender, breaks, row_drop, k) + cmds_from(
            shaped,
            outlines,
            ascender,
            breaks,
            row_drop,
            k + 1,
        )
    }
}

/// The complete command sequence of one render call.
pub open spec fn all_commands(
    shaped: Seq<PositionedGlyph>,
    outlines: Seq<Seq<RawSegment>>,
    ascender: int,
    breaks: Seq<usize>,
    row_drop: int,
) -> Seq<PathCommand> {
    cmds_from(shaped, outlines, ascender, breaks, row_drop, 0)
}

/// Iterator that generates a path from shaped glyphs, one command per
/// pull.  `offset` is the live pen accumulator, readable at any time;
/// after the last pull it holds the total advance of the final line.
pub struct TextPathIterator {
    /// Shaped glyphs of this render call.
    shaped: Vec<PositionedGlyph>,
    /// Outline table of the font, indexed by glyph identifier.
    outlines: Vec<Vec<RawSegment>>,
    /// The font's ascender, in font units.
    ascender: i32,
    /// Reusable scratch buffer: the current glyph's commands.
    paths: Vec<PathCommand>,
    /// Index to stop rendering at.
    until: usize,
    /// Current glyph index.
    index: usize,
    /// Cursor into the scratch buffer.
    path_i: usize,
    /// The pen's x and y offset, in font units.
    pub offset: (i128, i128),
    /// Glyph indices at which a line break occurs.
    line_break_indicies: Vec<usize>,
    /// Y offset change on line breaks, in font units.
    row_drop: i32,
}

impl TextPathIterator {
    /// The shaped glyphs driving this iterator.
    pub closed spec fn shaped_view(self) -> Seq<PositionedGlyph> {
        self.shaped@
    }

    /// The outline table driving this iterator.
    pub closed spec fn outline_table(self) -> Seq<Seq<RawSegment>> {
        outlines_view(self.outlines@)
    }

    /// The break indices driving this iterator.
    pub closed spec fn breaks_view(self) -> Seq<usize> {
        self.line_break_indicies@
    }

    /// The ascender, in font units.
    pub closed spec fn ascender_units(self) -> int {
        self.ascender as int
    }

    /// The row drop, in font units.
    pub closed spec fn drop_units(self) -> int {
        self.row_drop as int
    }

    /// The pen's x-component, in font units.
    pub closed spec fn pen_x(self) -> int {
        self.offset.0 as int
    }

    /// The pen's y-component, in font units.
    pub closed spec fn pen_y(self) -> int {
        self.offset.1 as int
    }

    /// The iterator's bookkeeping is intact: the glyph cursor is inside
    /// the shaped buffer, the command cursor is inside the scratch
    /// buffer, and the pen equals the model's pen at the glyph cursor.
    pub closed spec fn wf(self) -> bool {
        &&& self.until == self.shaped@.len()
        &&& self.index <= self.until
        &&& self.path_i <= self.paths@.len()
        &&& self.shaped@.len() <= 0xFFFF_FFFF_FFFF_FFFF
        &&& self.offset.0 as int == pen_at(
            self.shaped@,
            self.line_break_indicies@,
            self.row_drop as int,
            self.index as int,
        ).0
        &&& self.offset.1 as int == pen_at(
            self.shaped@,
            self.line_break_indicies@,
            self.row_drop as int,
            self.index as int,
        ).1
    }

    /// The commands this iterator has yet to produce: what is left in
    /// the scratch buffer, then everything the remaining glyphs
    /// contribute.
    pub closed spec fn remaining(self) -> Seq<PathCommand> {
        self.paths@.subrange(self.path_i as int, self.paths@.len() as int) + cmds_from(
            self.shaped@,
            outlines_view(self.outlines@),
            self.ascender as int,
            self.line_break_indicies@,
            self.row_drop as int,
            self.index as int,
        )
    }

    /// Bind an iterator to a shaped buffer, an outline table, a break
    /// set and a row drop: it will produce exactly the model's command
    /// sequence, starting with the pen at the origin.
    pub fn new(
        shaped: Vec<PositionedGlyph>,
        outlines: Vec<Vec<RawSegment>>,
        ascender: i32,
        line_break_indicies: Vec<usize>,
        row_drop: i32,
    ) -> (r: TextPathIterator)
        ensures
            r.wf(),
            r.remaining() == all_commands(
                shaped@,
                outlines_view(outlines@),
                ascender as int,
                line_break_indicies@,
                row_drop as int,
            ),
            r.shaped_view() == shaped@,
            r.outline_table() == outlines_view(outlines@),
            r.breaks_view() == line_break_indicies@,
            r.ascender_units() == ascender as int,
            r.drop_units() == row_drop as int,
            r.pen_x() == 0,
            r.pen_y() == 0,
    {
        let until = shaped.len();
        let r = TextPathIterator {
            shaped,
            outlines,
            ascender,
            paths: Vec::new(),
            until,
            index: 0,
            path_i: 0,
            offset: (0, 0),
            line_break_indicies,
            row_drop,
        };
        proof {
            assert(r.remaining() =~= all_commands(
                r.shaped@,
                outlines_view(r.outlines@),
                ascender as int,
                r.line_break_indicies@,
                row_drop as int,
            ));
        }
        r
    }

    /// Produce the next path command, or `None` once every glyph is
    /// consumed.  Glyphs without an outline are crossed transparently:
    /// their advance still moves the pen, and after `None` the pen holds
    /// the model's offset past the last glyph.
    pub fn next(&mut self) -> (r: Option<PathCommand>)
        requires
            old(self).wf(),
        ensures
            final(self).wf(),
            final(self).shaped_view() == old(self).shaped_view(),
            final(self).outline_table() == old(self).outline_table(),
            final(self).breaks_view() == old(self).breaks_view(),
            final(self).ascender_units() == old(self).ascender_units(),
            final(self).drop_units() == old(self).drop_units(),
            old(self).remaining().len() > 0 ==> r == Some(old(self).remaining()[0])
                && final(self).remaining() == old(self).remaining().drop_first(),
            old(self).remaining().len() == 0 ==> r is None,
            r is None ==> final(self).remaining().len() == 0 && final(self).pen_x() == pen_at(
                old(self).shaped_view(),
                old(self).breaks_view(),
                old(self).drop_units(),
                old(self).shaped_view().len() as int,
            ).0 && final(self).pen_y() == pen_at(
                old(self).shaped_view(),
                old(self).breaks_view(),
                old(self).drop_units(),
                old(self).shaped_view().len() as int,
            ).1,
    {
        loop
            invariant
                self.wf(),
                self.shaped@ == old(self).shaped@,
                self.outlines@ == old(self).outlines@,
                self.line_break_indicies@ == old(self).line_break_indicies@,
                self.ascender == old(self).ascender,
                self.row_drop == old(self).row_drop,
                self.remaining() == old(self).remaining(),
            decreases self.until - self.index,
        {
            let ghost rem = self.remaining();
            if self.path_i != self.paths.len() {
                let c = self.paths[self.path_i];
                self.path_i = self.path_i + 1;
                proof {
                    assert(rem[0] == c);
                    assert(self.remaining() =~= rem.drop_first());
                }
                return Some(c);
            }
            self.paths.clear();
            self.path_i = 0;
            proof {
                assert(self.remaining() =~= rem);
            }
            if self.index == self.until {
                return None;
            }
            let j = self.index;
            let ghost shaped = self.shaped@;
            let ghost breaks = self.line_break_indicies@;
            let ghost rd = self.row_drop as int;
            proof {
                lemma_pen_bounds(shaped, breaks, rd, j + 1);
            }
            self.produce_path();
            if contains_index(&self.line_break_indicies, j) {
                self.offset = (0, self.offset.1 + (self.row_drop as i128));
            }
            self.index = j + 1;
            proof {
                let ov = outlines_view(self.outlines@);
                let asc = self.ascender as int;
                assert(cmds_from(shaped, ov, asc, breaks, rd, j as int) == glyph_cmds_at(
                    shaped,
                    ov,
                    asc,
                    breaks,
                    rd,
                    j as int,
                ) + cmds_from(shaped, ov, asc, breaks, rd, j + 1));
                assert(self.paths@.subrange(0, self.paths@.len() as int) =~= self.paths@);
                assert(self.remaining() =~= rem);
            }
        }
    }

    /// Produce one glyph's path: look up the record at the glyph
    /// cursor, combine its shaping offset with the pen, advance the pen
    /// by its advance *before* outline extraction (so advance
    /// accumulation is right even for glyphs without contours), and
    /// append its transformed outline to the scratch buffer.
    fn produce_path(&mut self)
        requires
            old(self).wf(),
            old(self).index < old(self).shaped@.len(),
            old(self).paths@.len() == 0,
        ensures
            final(self).shaped@ == old(self).shaped@,
            final(self).outlines@ == old(self).outlines@,
            final(self).line_break_indicies@ == old(self).line_break_indicies@,
            final(self).ascender == old(self).ascender,
            final(self).row_drop == old(self).row_drop,
            final(self).until == old(self).until,
            final(self).index == old(self).index,
            final(self).path_i == old(self).path_i,
            final(self).paths@ == glyph_cmds_at(
                old(self).shaped@,
                outlines_view(old(self).outlines@),
                old(self).ascender as int,
                old(self).line_break_indicies@,
                old(self).row_drop as int,
                old(self).index as int,
            ),
            final(self).offset.0 as int == old(self).offset.0 as int + old(self).shaped@[old(
                self,
            ).index as int].x_advance,
            final(self).offset.1 as int == old(self).offset.1 as int + old(self).shaped@[old(
                self,
            ).index as int].y_advance,
    {
        let j = self.index;
        let g = self.shaped[j];
        let ghost shaped = self.shaped@;
        let ghost breaks = self.line_break_indicies@;
        let ghost rd = self.row_drop as int;
        proof {
            lemma_pen_bounds(shaped, breaks, rd, j as int);
        }
        let ox: i128 = self.offset.0 + (g.x_offset as i128);
        let oy: i128 = self.offset.1 + (g.y_offset as i128);
        self.offset = (self.offset.0 + (g.x_advance as i128), self.offset.1 + (g.y_advance as i128));
        let gid = g.glyph_id as usize;
        if gid < self.outlines.len() {
            append_outline(&mut self.paths, &self.outlines[gid], self.ascender as i128, ox, oy);
            proof {
                assert(outlines_view(self.outlines@)[g.glyph_id as int] == self.outlines@[g.glyph_id
                    as int]@);
            }
        }
        proof {
            assert(self.paths@ == glyph_cmds_at(
                shaped,
                outlines_view(self.outlines@),
                self.ascender as int,
                breaks,
                rd,
                j as int,
            ));
        }
    }
}

/// Whether the slice of break indices holds `x`.
fn contains_index(v: &Vec<usize>, x: usize) -> (r: bool)
    ensures
        r == v@.contains(x),
{
    let n = v.len();
    let mut i: usize = 0;
    while i < n
        invariant
            n == v@.len(),
            0 <= i <= n,
            forall|j: int| 0 <= j < i ==> v@[j] != x,
        decreases n - i,
    {
        if v[i] == x {
            proof {
                assert(v@[i as int] == x);
            }
            return true;
        }
        i = i + 1;
    }
    false
}

/// For a non-empty shaped buffer whose glyphs all have a visible
/// outline (one inside the table with at least one segment that is not
/// a close), the produced command sequence holds at least one command
/// that is not a close: the transformer preserves segment kinds, so the
/// first glyph alone already contributes ink.
pub proof fn lemma_visible_glyphs_make_ink(
    shaped: Seq<PositionedGlyph>,
    outlines: Seq<Seq<RawSegment>>,
    ascender: int,
    breaks: Seq<usize>,
    row_drop: int,
)
    requires
        shaped.len() > 0,
        forall|k: int|
            0 <= k < shaped.len() ==> (#[trigger] shaped[k].glyph_id as int) < outlines.len(),
        forall|k: int|
            0 <= k < shaped.len() ==> exists|j: int|
                0 <= j < outlines[#[trigger] shaped[k].glyph_id as int].len() && !(
                outlines[shaped[k].glyph_id as int][j] is Close),
    ensures
        exists|i: int|
            0 <= i < all_commands(shaped, outlines, ascender, breaks, row_drop).len() && !(
            #[trigger] all_commands(shaped, outlines, ascender, breaks, row_drop)[i] is Close),
{
    let g = shaped[0];
    let segs = outlines[g.glyph_id as int];
    assert((g.glyph_id as int) < outlines.len());
    assert(exists|j: int| 0 <= j < segs.len() && !(segs[j] is Close));
    let j = choose|j: int| 0 <= j < segs.len() && !(segs[j] is Close);
    let pen = pen_at(shaped, breaks, row_drop, 0);
    let first = glyph_cmds_at(shaped, outlines, ascender, breaks, row_drop, 0);
    assert(first == transform_outline(segs, ascender, pen.0 + g.x_offset, pen.1 + g.y_offset));
    crate::path::lemma_transform_preserves_kind(
        segs[j],
        ascender,
        pen.0 + g.x_offset,
        pen.1 + g.y_offset,
    );
    assert(!(first[j] is Close));
    let whole = all_commands(shaped, outlines, ascender, breaks, row_drop);
    assert(whole == first + cmds_from(shaped, outlines, ascender, breaks, row_drop, 1));
    assert(whole[j] == first[j]);
}

/// The index of the last break strictly below `n`, or `-1` if no break
/// lies there.
pub open spec fn last_reset(breaks: Seq<usize>, n: int) -> int
    decreases n,
{
    if n <= 0 {
        -1
    } else if breaks.contains((n - 1) as usize) {
        n - 1
    } else {
        last_reset(breaks, n - 1)
    }
}

proof fn lemma_last_reset_range(breaks: Seq<usize>, n: int)
    requires
        0 <= n,
    ensures
        -1 <= last_reset(breaks, n) < n,
    decreases n,
{
    if n > 0 {
        lemma_last_reset_range(breaks, n - 1);
    }
}

proof fn lemma_advance_sum_extend(positions: Seq<PositionedGlyph>, from: int, to: int)
    requires
        from <= to,
    ensures
        crate::linebreak::advance_sum(positions, from, to + 1) == crate::linebreak::advance_sum(
            positions,
            from,
            to,
        ) + positions[to].x_advance,
    decreases to - from,
{
    if from < to {
        lemma_advance_sum_extend(positions, from + 1, to);
        assert(crate::linebreak::advance_sum(positions, from, to + 1) == positions[from].x_advance
            + crate::linebreak::advance_sum(positions, from + 1, to + 1));
        assert(crate::linebreak::advance_sum(positions, from, to) == positions[from].x_advance
            + crate::linebreak::advance_sum(positions, from + 1, to));
    } else {
        assert(crate::linebreak::advance_sum(positions, to + 1, to + 1) == 0);
        assert(crate::linebreak::advance_sum(positions, to, to + 1) == positions[to].x_advance
            + crate::linebreak::advance_sum(positions, to + 1, to + 1));
        assert(crate::linebreak::advance_sum(positions, to, to) == 0);
    }
}

/// The pen's x-component never accumulates across breaks: after `k`
/// glyphs it is exactly the advance gathered since the most recent
/// break, so after full consumption it is bounded by the advance of the
/// final line alone.
pub proof fn lemma_pen_x_spans_last_line(
    shaped: Seq<PositionedGlyph>,
    breaks: Seq<usize>,
    row_drop: int,
    k: int,
)
    requires
        0 <= k,
    ensures
        pen_at(shaped, breaks, row_drop, k).0 == crate::linebreak::advance_sum(
            shaped,
            last_reset(breaks, k) + 1,
            k,
        ),
    decreases k,
{
    if k > 0 {
        lemma_pen_x_spans_last_line(shaped, breaks, row_drop, k - 1);
        lemma_last_reset_range(breaks, k - 1);
        if !breaks.contains((k - 1) as usize) {
            lemma_advance_sum_extend(shaped, last_reset(breaks, k - 1) + 1, k - 1);
        }
    }
}

/// The pen never strays far: after `k` glyphs its x-component is at most
/// `k` advances wide and its y-component at most `k` advances and drops
/// deep, whatever the break set.
pub proof fn lemma_pen_bounds(
    shaped: Seq<PositionedGlyph>,
    breaks: Seq<usize>,
    row_drop: int,
    k: int,
)
    requires
        0 <= k,
        -0x8000_0000 <= row_drop <= 0x8000_0000,
    ensures
        -(k * 0x8000_0000) <= pen_at(shaped, breaks, row_drop, k).0 <= k * 0x8000_0000,
        -(k * 0x1_0000_0000) <= pen_at(shaped, breaks, row_drop, k).1 <= k * 0x1_0000_0000,
    decreases k,
{
    if k > 0 {
        lemma_pen_bounds(shaped, breaks, row_drop, k - 1);
    }
}

} // verus!
