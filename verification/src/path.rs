//! Path commands and the glyph outline transformer.
//!
//! A glyph's outline arrives from the font in font units, Y-up
//! (`RawSegment`).  The transformer maps each point into the caller's
//! Y-down convention, still in font units: the caller divides by the
//! font's `units_per_em` to reach normalized coordinates, so the
//! verified arithmetic here is exact integer arithmetic.

use vstd::prelude::*;

verus! {

/// One outline segment as the font stores it: font units, Y axis up.
#[derive(Clone, Copy, PartialEq, Eq, Structural, Debug)]
pub enum RawSegment {
    Move { x: i32, y: i32 },
    Line { x: i32, y: i32 },
    Quad { x1: i32, y1: i32, x: i32, y: i32 },
    Curve { x1: i32, y1: i32, x2: i32, y2: i32, x: i32, y: i32 },
    Close,
}

/// One path command in the caller's convention: font units, Y axis down,
/// translated by the pen offset.  Divide every coordinate by the font's
/// `units_per_em` to obtain normalized (unit-square) coordinates.
#[derive(Clone, Copy, PartialEq, Eq, Structural, Debug)]
pub enum PathCommand {
    MoveTo { x: i128, y: i128 },
    LineTo { x: i128, y: i128 },
    QuadTo { x1: i128, y1: i128, x: i128, y: i128 },
    CurveTo { x1: i128, y1: i128, x2: i128, y2: i128, x: i128, y: i128 },
    Close,
}

/// Bound on the transformer's offset and ascender arguments, far above
/// anything a pen accumulated over at most `usize::MAX` glyphs can reach,
/// yet small enough that every transformed coordinate fits in `i128`.
pub const COORD_LIMIT: i128 = 0x10_0000_0000_0000_0000_0000_0000;

/// The transformed X coordinate: translate, keeping font units.
pub open spec fn flip_x(x: int, ox: int) -> int {
    x + ox
}

/// The transformed Y coordinate: translate, then flip the axis about the
/// font's ascender line, keeping font units.
pub open spec fn flip_y(y: int, oy: int, ascender: int) -> int {
    ascender - (y + oy)
}

/// What the transformer makes of one raw segment, given the ascender and
/// the combined (shaping + pen) offset, all in font units.
pub open spec fn transform_seg(seg: RawSegment, ascender: int, ox: int, oy: int) -> PathCommand {
    match seg {
        RawSegment::Move { x, y } => PathCommand::MoveTo {
            x: flip_x(x as int, ox) as i128,
            y: flip_y(y as int, oy, ascender) as i128,
        },
        RawSegment::Line { x, y } => PathCommand::LineTo {
            x: flip_x(x as int, ox) as i128,
            y: flip_y(y as int, oy, ascender) as i128,
        },
        RawSegment::Quad { x1, y1, x, y } => PathCommand::QuadTo {
            x1: flip_x(x1 as int, ox) as i128,
            y1: flip_y(y1 as int, oy, ascender) as i128,
            x: flip_x(x as int, ox) as i128,
            y: flip_y(y as int, oy, ascender) as i128,
        },
        RawSegment::Curve { x1, y1, x2, y2, x, y } => PathCommand::CurveTo {
            x1: flip_x(x1 as int, ox) as i128,
            y1: flip_y(y1 as int, oy, ascender) as i128,
            x2: flip_x(x2 as int, ox) as i128,
            y2: flip_y(y2 as int, oy, ascender) as i128,
            x: flip_x(x as int, ox) as i128,
            y: flip_y(y as int, oy, ascender) as i128,
        },
        RawSegment::Close => PathCommand::Close,
    }
}

/// The whole outline of one glyph after transformation.
pub open spec fn transform_outline(segs: Seq<RawSegment>, ascender: int, ox: int, oy: int) -> Seq<
    PathCommand,
> {
    segs.map(|i: int, s: RawSegment| transform_seg(s, ascender, ox, oy))
}

/// The transformer preserves each segment's kind; in particular a close
/// command passes through unchanged and nothing else becomes one.
pub proof fn lemma_transform_preserves_kind(seg: RawSegment, ascender: int, ox: int, oy: int)
    ensures
        (transform_seg(seg, ascender, ox, oy) is Close) <==> (seg is Close),
{
}

/// Transform one raw segment.
fn transform_segment(seg: &RawSegment, ascender: i128, ox: i128, oy: i128) -> (r: PathCommand)
    requires
        -COORD_LIMIT <= ascender <= COORD_LIMIT,
        -COORD_LIMIT <= ox <= COORD_LIMIT,
        -COORD_LIMIT <= oy <= COORD_LIMIT,
    ensures
        r == transform_seg(*seg, ascender as int, ox as int, oy as int),
{
    match seg {
        RawSegment::Move { x, y } => PathCommand::MoveTo {
            x: (*x as i128) + ox,
            y: ascender - ((*y as i128) + oy),
        },
        RawSegment::Line { x, y } => PathCommand::LineTo {
            x: (*x as i128) + ox,
            y: ascender - ((*y as i128) + oy),
        },
        RawSegment::Quad { x1, y1, x, y } => PathCommand::QuadTo {
            x1: (*x1 as i128) + ox,
            y1: ascender - ((*y1 as i128) + oy),
            x: (*x as i128) + ox,
            y: ascender - ((*y as i128) + oy),
        },
        RawSegment::Curve { x1, y1, x2, y2, x, y } => PathCommand::CurveTo {
            x1: (*x1 as i128) + ox,
            y1: ascender - ((*y1 as i128) + oy),
            x2: (*x2 as i128) + ox,
            y2: ascender - ((*y2 as i128) + oy),
            x: (*x as i128) + ox,
            y: ascender - ((*y as i128) + oy),
        },
        RawSegment::Close => PathCommand::Close,
    }
}

/// Transform a glyph's whole outline, appending to the output buffer.
pub fn append_outline(
    path: &mut Vec<PathCommand>,
    segs: &Vec<RawSegment>,
    ascender: i128,
    ox: i128,
    oy: i128,
)
    requires
        -COORD_LIMIT <= ascender <= COORD_LIMIT,
        -COORD_LIMIT <= ox <= COORD_LIMIT,
        -COORD_LIMIT <= oy <= COORD_LIMIT,
    ensures
        final(path)@ == old(path)@ + transform_outline(
            segs@,
            ascender as int,
            ox as int,
            oy as int,
        ),
{
    let ghost out = transform_outline(segs@, ascender as int, ox as int, oy as int);
    let n = segs.len();
    let mut i: usize = 0;
    while i < n
        invariant
            n == segs@.len(),
            out == transform_outline(segs@, ascender as int, ox as int, oy as int),
            out.len() == n,
            0 <= i <= n,
            -COORD_LIMIT <= ascender <= COORD_LIMIT,
            -COORD_LIMIT <= ox <= COORD_LIMIT,
            -COORD_LIMIT <= oy <= COORD_LIMIT,
            path@ == old(path)@ + out.subrange(0, i as int),
        decreases n - i,
    {
        let c = transform_segment(&segs[i], ascender, ox, oy);
        path.push(c);
        proof {
            assert(old(path)@ + out.subrange(0, i + 1) =~= (old(path)@ + out.subrange(
                0,
                i as int,
            )).push(out[i as int]));
        }
        i = i + 1;
    }
    proof {
        assert(out.subrange(0, n as int) =~= out);
    }
}

} // verus!
