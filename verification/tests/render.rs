use fonterator::Font;
use fonterator::PathCommand;
use fonterator::PositionedGlyph;
use fonterator::RawSegment;
use fonterator::TextPathIterator;
use fonterator::linebreak::line_breaks;

fn glyph(glyph_id: u32, x_advance: i32) -> PositionedGlyph {
    PositionedGlyph { glyph_id, x_advance, y_advance: 0, x_offset: 0, y_offset: 0 }
}

fn square_outline() -> Vec<RawSegment> {
    vec![
        RawSegment::Move { x: 0, y: 0 },
        RawSegment::Line { x: 10, y: 0 },
        RawSegment::Line { x: 10, y: 10 },
        RawSegment::Close,
    ]
}

fn collect(mut it: TextPathIterator) -> (Vec<PathCommand>, (i128, i128)) {
    let mut out = Vec::new();
    while let Some(c) = it.next() {
        out.push(c);
    }
    (out, it.offset)
}

/// Text "AB": glyph A has one contour of four commands, glyph B has no
/// outline.  A wide row gives no breaks; the output is exactly A's four
/// commands and the pen advanced by both advances.
#[test]
fn two_glyphs_one_marker() {
    let shaped = vec![glyph(0, 500), glyph(1, 300)];
    let outlines = vec![square_outline(), Vec::new()];
    let pairs = vec![(0usize, 'A'), (1usize, 'B')];
    let breaks = line_breaks(&pairs, &shaped, 100000);
    assert_eq!(breaks, Vec::<usize>::new());
    let it = TextPathIterator::new(shaped, outlines, 800, breaks, -800);
    let (cmds, offset) = collect(it);
    assert_eq!(
        cmds,
        vec![
            PathCommand::MoveTo { x: 0, y: 800 },
            PathCommand::LineTo { x: 10, y: 800 },
            PathCommand::LineTo { x: 10, y: 790 },
            PathCommand::Close,
        ]
    );
    assert_eq!(offset, (800, 0));
}

/// The second glyph's commands are translated by the first glyph's
/// advance, and shaping offsets join the pen offset before the flip.
#[test]
fn pen_translates_later_glyphs() {
    let shaped = vec![
        glyph(0, 500),
        PositionedGlyph { glyph_id: 0, x_advance: 400, y_advance: 0, x_offset: 7, y_offset: -3 },
    ];
    let outlines = vec![vec![RawSegment::Move { x: 1, y: 2 }, RawSegment::Close]];
    let it = TextPathIterator::new(shaped, outlines, 1000, Vec::new(), 0);
    let (cmds, offset) = collect(it);
    assert_eq!(
        cmds,
        vec![
            // first glyph: pen (0, 0), offset (0, 0)
            PathCommand::MoveTo { x: 1, y: 998 },
            PathCommand::Close,
            // second glyph: pen (500, 0), offset (507, -3)
            PathCommand::MoveTo { x: 508, y: 1001 },
            PathCommand::Close,
        ]
    );
    assert_eq!(offset, (900, 0));
}

/// Quadratic and cubic control points are transformed like endpoints.
#[test]
fn curves_transform_every_point() {
    let shaped = vec![glyph(0, 100)];
    let outlines = vec![vec![
        RawSegment::Quad { x1: 1, y1: 2, x: 3, y: 4 },
        RawSegment::Curve { x1: 5, y1: 6, x2: 7, y2: 8, x: 9, y: 10 },
    ]];
    let it = TextPathIterator::new(shaped, outlines, 100, Vec::new(), 0);
    let (cmds, _) = collect(it);
    assert_eq!(
        cmds,
        vec![
            PathCommand::QuadTo { x1: 1, y1: 98, x: 3, y: 96 },
            PathCommand::CurveTo { x1: 5, y1: 94, x2: 7, y2: 92, x: 9, y: 90 },
        ]
    );
}

/// Text "a b" whose advance exceeds the row length only at the trailing
/// "b": the single break lands on the space's byte index, word wrap
/// winning over a hard break.
#[test]
fn word_wrap_prefers_space() {
    let shaped = vec![glyph(0, 400), glyph(1, 200), glyph(2, 500)];
    let pairs = vec![(0usize, 'a'), (1usize, ' '), (2usize, 'b')];
    let breaks = line_breaks(&pairs, &shaped, 1000);
    assert_eq!(breaks, vec![1usize]);
}

/// Without a space since the last break, overflow breaks hard at the
/// current index.
#[test]
fn hard_break_without_space() {
    let shaped = vec![glyph(0, 600), glyph(1, 600)];
    let pairs = vec![(0usize, 'a'), (1usize, 'b')];
    let breaks = line_breaks(&pairs, &shaped, 1000);
    assert_eq!(breaks, vec![1usize]);
}

/// A row length at least the text's total advance gives no breaks when
/// the text holds no newline.
#[test]
fn wide_row_never_breaks() {
    let shaped = vec![glyph(0, 400), glyph(1, 200), glyph(2, 500)];
    let pairs = vec![(0usize, 'a'), (1usize, ' '), (2usize, 'b')];
    let breaks = line_breaks(&pairs, &shaped, 2000);
    assert_eq!(breaks, Vec::<usize>::new());
    // landing exactly on the row length does not break either
    let exact = line_breaks(&pairs, &shaped, 1100);
    assert_eq!(exact, Vec::<usize>::new());
}

/// A literal newline breaks at its own byte index however wide the row
/// is, and exactly once.
#[test]
fn newline_always_breaks() {
    let shaped = vec![glyph(0, 100), glyph(1, 0), glyph(2, 100)];
    let pairs = vec![(0usize, 'x'), (1usize, '\n'), (2usize, 'y')];
    let wide = line_breaks(&pairs, &shaped, i32::MAX);
    assert_eq!(wide, vec![1usize]);
    let narrow = line_breaks(&pairs, &shaped, 0);
    assert_eq!(narrow.iter().filter(|&&b| b == 1).count(), 1);
}

/// After full consumption the pen's x-component spans only the final
/// line: the break resets it, so it never accumulates across lines.
#[test]
fn pen_x_resets_at_breaks() {
    let shaped = vec![glyph(0, 100), glyph(1, 100), glyph(2, 100)];
    // a break at glyph index 1 resets the pen after that glyph
    let it = TextPathIterator::new(shaped, Vec::new(), 700, vec![1usize], -250);
    let (cmds, offset) = collect(it);
    assert_eq!(cmds, Vec::<PathCommand>::new());
    assert_eq!(offset, (100, -250));
}

/// Rendering twice with identical arguments produces element-wise
/// identical command sequences and the same final pen.
#[test]
fn rerender_is_identical() {
    let shaped = vec![glyph(0, 500), glyph(1, 300)];
    let outlines = vec![square_outline(), square_outline()];
    let pairs = vec![(0usize, 'A'), (1usize, 'B')];
    let first = TextPathIterator::new(
        shaped.clone(),
        outlines.clone(),
        800,
        line_breaks(&pairs, &shaped, 600),
        -800,
    );
    let second = TextPathIterator::new(
        shaped.clone(),
        outlines.clone(),
        800,
        line_breaks(&pairs, &shaped, 600),
        -800,
    );
    let (a, offset_a) = collect(first);
    let (b, offset_b) = collect(second);
    assert_eq!(a, b);
    assert_eq!(offset_a, offset_b);
    assert!(a.iter().any(|c| !matches!(c, PathCommand::Close)));
}

fn push_u16(d: &mut Vec<u8>, v: u16) {
    d.extend_from_slice(&v.to_be_bytes());
}

fn push_u32(d: &mut Vec<u8>, v: u32) {
    d.extend_from_slice(&v.to_be_bytes());
}

/// A minimal well-formed font container: the three required tables,
/// records sorted by tag, 1000 units per em, ascender 800, two glyphs.
fn tiny_font_bytes() -> Vec<u8> {
    let mut d = Vec::new();
    push_u32(&mut d, 0x00010000); // sfnt magic
    push_u16(&mut d, 3); // table count
    push_u16(&mut d, 0);
    push_u16(&mut d, 0);
    push_u16(&mut d, 0);
    d.extend_from_slice(b"head");
    push_u32(&mut d, 0);
    push_u32(&mut d, 60);
    push_u32(&mut d, 54);
    d.extend_from_slice(b"hhea");
    push_u32(&mut d, 0);
    push_u32(&mut d, 114);
    push_u32(&mut d, 36);
    d.extend_from_slice(b"maxp");
    push_u32(&mut d, 0);
    push_u32(&mut d, 150);
    push_u32(&mut d, 6);
    // head
    push_u32(&mut d, 0x00010000); // version
    push_u32(&mut d, 0); // revision
    push_u32(&mut d, 0); // checksum adjustment
    push_u32(&mut d, 0x5F0F3CF5); // table magic
    push_u16(&mut d, 0); // flags
    push_u16(&mut d, 1000); // units per em
    d.extend_from_slice(&[0u8; 16]); // created + modified
    d.extend_from_slice(&[0u8; 8]); // bounding box
    push_u16(&mut d, 0); // mac style
    push_u16(&mut d, 0); // lowest recommended ppem
    push_u16(&mut d, 0); // direction hint
    push_u16(&mut d, 0); // index-to-location format
    push_u16(&mut d, 0); // glyph data format
    assert_eq!(d.len(), 114);
    // hhea
    push_u32(&mut d, 0x00010000); // version
    push_u16(&mut d, 800); // ascender
    push_u16(&mut d, (-200i16) as u16); // descender
    push_u16(&mut d, 0); // line gap
    d.extend_from_slice(&[0u8; 24]);
    push_u16(&mut d, 1); // number of metrics
    assert_eq!(d.len(), 150);
    // maxp
    push_u32(&mut d, 0x00010000); // version
    push_u16(&mut d, 2); // glyph count
    d
}

/// Well-formed font bytes load, expose their metrics, and render
/// through the real shaper; rendering twice with identical arguments is
/// identical.
#[test]
fn valid_font_loads_and_renders() {
    let bytes = tiny_font_bytes();
    let loaded = Font::new().push(&bytes, vec![square_outline(), Vec::new()]);
    assert!(loaded.is_some());
    let mut font = loaded.unwrap();
    assert_eq!(font.font_count(), 1);
    assert_eq!(font.units_per_em(), 1000);
    let (first, offset_first) = collect(font.render("AB", 10000, -800));
    let (second, offset_second) = collect(font.render("AB", 10000, -800));
    assert_eq!(first, second);
    assert_eq!(offset_first, offset_second);
    // the font has no character map, so every character shapes to the
    // first glyph, drawn at the origin under the ascender flip
    assert!(first.contains(&PathCommand::MoveTo { x: 0, y: 800 }));
}

/// Pushing empty or truncated font bytes yields no collection and a
/// fresh collection stays font-less.
#[test]
fn malformed_font_rejected() {
    let empty = Font::new();
    assert_eq!(empty.font_count(), 0);
    assert!(Font::new().push(&[], Vec::new()).is_none());
    let truncated: &[u8] = &[0x00, 0x01, 0x00, 0x00];
    assert!(Font::new().push(truncated, Vec::new()).is_none());
    let garbage: &[u8] = &[0xDE, 0xAD, 0xBE, 0xEF, 0x00, 0x00];
    assert!(Font::new().push(garbage, Vec::new()).is_none());
}

/// A glyph whose identifier lies outside the outline table contributes
/// nothing but still advances the pen.
#[test]
fn missing_glyph_only_advances() {
    let shaped = vec![glyph(9, 250)];
    let it = TextPathIterator::new(shaped, vec![square_outline()], 800, Vec::new(), 0);
    let (cmds, offset) = collect(it);
    assert_eq!(cmds, Vec::<PathCommand>::new());
    assert_eq!(offset, (250, 0));
}
