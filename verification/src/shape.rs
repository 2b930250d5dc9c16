//! Text shaping and font parsing, delegated to `rustybuzz`.
//!
//! Shaping (mapping code points to positioned glyph identifiers) and
//! font-container parsing are external collaborators: the wrappers here
//! hand their results to the verified core as plain values.  Shaping is
//! a pure function of the font bytes and the text, which the
//! uninterpreted functions `face_parses` and `shaped_of` name.

use vstd::prelude::*;

verus! {

/// One shaped output element: a glyph identifier with its advance and
/// placement offset, all in font units, in shaping order.
#[derive(Clone, Copy, PartialEq, Eq, Structural, Debug)]
pub struct PositionedGlyph {
    pub glyph_id: u32,
    pub x_advance: i32,
    pub y_advance: i32,
    pub x_offset: i32,
    pub y_offset: i32,
}

/// Whether `rustybuzz::Face::from_slice` accepts these bytes as a font.
pub uninterp spec fn face_parses(data: Seq<u8>) -> bool;

/// The glyph sequence that shaping the text with the font produces.
/// Shaping is deterministic: it depends on the font bytes and the text
/// alone.
pub uninterp spec fn shaped_of(data: Seq<u8>, text: Seq<char>) -> Seq<PositionedGlyph>;

/// Relies on `rustybuzz::Face::from_slice` (in turn
/// `ttf_parser::Face::parse`): it returns `Some` exactly when the bytes
/// form a well-formed font container, and parsing begins by reading a
/// four-byte magic number, so an empty slice is always rejected.
#[verifier::external_body]
pub(crate) fn parse_ok(data: &[u8]) -> (r: bool)
    ensures
        r == face_parses(data@),
        data@.len() == 0 ==> !r,
{
    rustybuzz::Face::from_slice(data, 0).is_some()
}

/// The ascender metric the font bytes carry, in font units.
pub uninterp spec fn ascender_of(data: Seq<u8>) -> int;

/// The units-per-em grid resolution the font bytes carry.
pub uninterp spec fn upem_of(data: Seq<u8>) -> int;

/// Relies on `ttf_parser::Face::ascender` (reached through
/// `rustybuzz::Face`'s `Deref`): the signed distance, in font units, from
/// the baseline to the top of the font's vertical extent, read from a
/// table of the already-validated font bytes — a function of the bytes
/// alone.
#[verifier::external_body]
pub(crate) fn face_ascender(data: &[u8]) -> (r: i16)
    requires
        face_parses(data@),
    ensures
        r as int == ascender_of(data@),
{
    rustybuzz::Face::from_slice(data, 0).unwrap().ascender()
}

/// Relies on `rustybuzz::Face::units_per_em`: the font's own grid
/// resolution, read from the already-validated font bytes — a function
/// of the bytes alone.
#[verifier::external_body]
pub(crate) fn face_units_per_em(data: &[u8]) -> (r: i32)
    requires
        face_parses(data@),
    ensures
        r as int == upem_of(data@),
{
    rustybuzz::Face::from_slice(data, 0).unwrap().units_per_em()
}

/// Relies on `rustybuzz::shape` (with `rustybuzz::UnicodeBuffer` carrying
/// the text and `rustybuzz::Face::from_slice` reopening the validated
/// bytes): shaping is deterministic in the font bytes and the text, and
/// yields one glyph record per shaped element, in shaping order.
#[verifier::external_body]
pub(crate) fn shape_text(data: &[u8], text: &str) -> (r: Vec<PositionedGlyph>)
    requires
        face_parses(data@),
    ensures
        r@ == shaped_of(data@, text@),
{
    let face = rustybuzz::Face::from_slice(data, 0).unwrap();
    let mut buffer = rustybuzz::UnicodeBuffer::new();
    buffer.push_str(text);
    let glyphs = rustybuzz::shape(&face, &[], buffer);
    let infos = glyphs.glyph_infos();
    let positions = glyphs.glyph_positions();
    infos.iter().zip(positions.iter()).map(|(i, p)| PositionedGlyph {
        glyph_id: i.glyph_id,
        x_advance: p.x_advance,
        y_advance: p.y_advance,
        x_offset: p.x_offset,
        y_offset: p.y_offset,
    }).collect()
}

/// The byte length of one character in UTF-8.
pub open spec fn char_utf8_len(c: char) -> int {
    if (c as int) < 0x80 {
        1
    } else if (c as int) < 0x800 {
        2
    } else if (c as int) < 0x10000 {
        3
    } else {
        4
    }
}

/// The byte index at which the text's `k`-th character starts.
pub open spec fn byte_index_of(text: Seq<char>, k: int) -> int
    decreases k,
{
    if k <= 0 {
        0
    } else {
        byte_index_of(text, k - 1) + char_utf8_len(text[k - 1])
    }
}

/// The text as the planner sees it: each character beside the byte index
/// at which it starts.
pub open spec fn char_pairs_of(text: Seq<char>) -> Seq<(usize, char)> {
    Seq::new(text.len(), |i: int| (byte_index_of(text, i) as usize, text[i]))
}

/// Relies on `str::char_indices` of std: it yields every character of
/// the string in order, each beside the byte index at which its UTF-8
/// encoding starts, so the indices are exactly the running sums of the
/// characters' UTF-8 lengths (one byte below 0x80, two below 0x800,
/// three below 0x10000, four otherwise).
#[verifier::external_body]
pub(crate) fn char_pairs(text: &str) -> (r: Vec<(usize, char)>)
    ensures
        r@ == char_pairs_of(text@),
{
    text.char_indices().collect()
}

} // verus!
