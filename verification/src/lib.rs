use vstd::prelude::*;

pub mod color;
pub mod model;
pub mod screen;
pub mod writer;

pub use color::Color;
pub use color::ColorCode;
pub use screen::Buffer;
pub use screen::ScreenChar;
pub use writer::Writer;

verus! {

/// Height of the text-mode grid in rows.
pub const BUFFER_HEIGHT: usize = 25;

/// Width of the text-mode grid in columns.
pub const BUFFER_WIDTH: usize = 80;

/// Smallest byte the console displays as itself.
pub const ASCII_PRINTABLE_MIN: u8 = 0x20;

/// Largest byte the console displays as itself; also the substitute glyph.
pub const ASCII_PRINTABLE_MAX: u8 = 0x7e;

/// The byte that triggers a scroll instead of placing a glyph.
pub const NEWLINE: u8 = 0x0a;

/// The space character that cleared cells are filled with.
pub const BLANK_CHAR: u8 = 0x20;

} // verus!
