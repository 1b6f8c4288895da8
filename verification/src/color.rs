use vstd::prelude::*;

verus! {

/// The sixteen colors of the legacy text-mode palette, in palette order.
#[allow(dead_code)]
#[derive(Clone, Copy, PartialEq, Eq, Structural, Debug)]
pub enum Color {
    Black,
    Blue,
    Green,
    Cyan,
    Red,
    Magenta,
    Brown,
    LightGray,
    DarkGray,
    LightBlue,
    LightGreen,
    LightCyan,
    LightRed,
    LightMagenta,
    LightBrown,
    White,
}

impl Color {
    /// The palette index of this color, in `[0, 15]`.
    pub open spec fn spec_value(self) -> u8 {
        match self {
            Color::Black => 0,
            Color::Blue => 1,
            Color::Green => 2,
            Color::Cyan => 3,
            Color::Red => 4,
            Color::Magenta => 5,
            Color::Brown => 6,
            Color::LightGray => 7,
            Color::DarkGray => 8,
            Color::LightBlue => 9,
            Color::LightGreen => 10,
            Color::LightCyan => 11,
            Color::LightRed => 12,
            Color::LightMagenta => 13,
            Color::LightBrown => 14,
            Color::White => 15,
        }
    }

    /// Returns the palette index of this color.
    pub fn value(self) -> (v: u8)
        ensures
            v == self.spec_value(),
            v <= 15,
    {
        match self {
            Color::Black => 0,
            Color::Blue => 1,
            Color::Green => 2,
            Color::Cyan => 3,
            Color::Red => 4,
            Color::Magenta => 5,
            Color::Brown => 6,
            Color::LightGray => 7,
            Color::DarkGray => 8,
            Color::LightBlue => 9,
            Color::LightGreen => 10,
            Color::LightCyan => 11,
            Color::LightRed => 12,
            Color::LightMagenta => 13,
            Color::LightBrown => 14,
            Color::White => 15,
        }
    }
}

/// A packed cell attribute: the background palette index in the high nibble,
/// the foreground palette index in the low nibble.
#[derive(Clone, Copy, PartialEq, Eq, Structural, Debug)]
pub struct ColorCode(pub u8);

/// The attribute byte packed from a foreground and a background color.
pub open spec fn spec_color_code(fg: Color, bg: Color) -> ColorCode {
    ColorCode((bg.spec_value() * 16 + fg.spec_value()) as u8)
}

/// The attribute every formatted write starts from: white on black.
pub open spec fn default_color_code() -> ColorCode {
    spec_color_code(Color::White, Color::Black)
}

impl ColorCode {
    /// Packs a foreground and a background color into one attribute byte.
    pub fn new(fg: Color, bg: Color) -> (code: ColorCode)
        ensures
            code == spec_color_code(fg, bg),
    {
        ColorCode(bg.value() * 16 + fg.value())
    }
}

} // verus!
