//! Text to vector-path conversion.
//!
//! Given loaded fonts, the library shapes a string into positioned
//! glyphs, plans greedy line breaks against a maximum row length, and
//! lazily yields one path command at a time, crossing glyph boundaries
//! transparently while the pen offset accumulates each glyph's advance.
//!
//! All coordinates the library produces are integers in font units; the
//! caller divides by the font's `units_per_em` to reach normalized
//! coordinates.

pub mod font;
pub mod iter;
pub mod linebreak;
pub mod path;
pub mod shape;

pub use font::Font;
pub use iter::TextPathIterator;
pub use path::PathCommand;
pub use path::RawSegment;
pub use shape::PositionedGlyph;
