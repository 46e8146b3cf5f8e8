//! Color and attribute encoding: the sixteen fixed display colors and the
//! packed attribute byte that pairs a foreground with a background color.

use vstd::prelude::*;

verus! {

/// The sixteen colors the display hardware understands, each with a fixed
/// 4-bit code given by [`Color::code`].
#[allow(dead_code)]
#[derive(Debug, Clone, Copy, PartialEq, Eq, Structural)]
pub enum Color {
    Black,
    Blue,
    Green,
    Cyan,
    Red,
    Magenta,
    Brown,
    LightGray,
    DarkGray,
    LightBlue,
    LightGreen,
    LightCyan,
    LightRed,
    Pink,
    Yellow,
    White,
}

impl Color {
    /// The 4-bit numeric code of this color.
    pub open spec fn code_spec(self) -> u8 {
        match self {
            Color::Black => 0,
            Color::Blue => 1,
            Color::Green => 2,
            Color::Cyan => 3,
            Color::Red => 4,
            Color::Magenta => 5,
            Color::Brown => 6,
            Color::LightGray => 7,
            Color::DarkGray => 8,
            Color::LightBlue => 9,
            Color::LightGreen => 10,
            Color::LightCyan => 11,
            Color::LightRed => 12,
            Color::Pink => 13,
            Color::Yellow => 14,
            Color::White => 15,
        }
    }

    /// Every color code is a valid 4-bit nibble.
    pub proof fn lemma_code_bound(self)
        ensures
            self.code_spec() < 16,
    {
    }

    /// Returns the 4-bit numeric code of this color.
    pub fn code(self) -> (r: u8)
        ensures
            r == self.code_spec(),
    {
        match self {
            Color::Black => 0,
            Color::Blue => 1,
            Color::Green => 2,
            Color::Cyan => 3,
            Color::Red => 4,
            Color::Magenta => 5,
            Color::Brown => 6,
            Color::LightGray => 7,
            Color::DarkGray => 8,
            Color::LightBlue => 9,
            Color::LightGreen => 10,
            Color::LightCyan => 11,
            Color::LightRed => 12,
            Color::Pink => 13,
            Color::Yellow => 14,
            Color::White => 15,
        }
    }
}

/// The attribute byte paired with each on-screen character: the foreground
/// color code in the low nibble, the background color code in the high nibble.
#[derive(Debug, Clone, Copy, PartialEq, Eq, Structural)]
pub struct ColorCode(pub u8);

/// The attribute byte that encodes `foreground` over `background`.
pub open spec fn attribute_byte(foreground: Color, background: Color) -> u8 {
    (background.code_spec() << 4) | foreground.code_spec()
}

impl ColorCode {
    /// Packs a foreground and a background color into one attribute byte.
    pub fn new(foreground: Color, background: Color) -> (r: ColorCode)
        ensures
            r.0 == attribute_byte(foreground, background),
            r.0 == 16 * background.code_spec() + foreground.code_spec(),
    {
        proof {
            lemma_attribute_byte_value(foreground, background);
        }
        ColorCode((background.code() << 4) | foreground.code())
    }
}

/// The packed attribute byte is the background code in the high nibble and
/// the foreground code in the low nibble, as one number.
pub proof fn lemma_attribute_byte_value(foreground: Color, background: Color)
    ensures
        attribute_byte(foreground, background) == 16 * background.code_spec()
            + foreground.code_spec(),
{
    let f = foreground.code_spec();
    let b = background.code_spec();
    foreground.lemma_code_bound();
    background.lemma_code_bound();
    assert(f < 16 && b < 16 ==> ((b << 4) | f) == 16 * b + f) by (bit_vector);
}

/// The attribute byte round-trips: its low nibble is the foreground color's
/// code and its high nibble is the background color's code.
pub proof fn lemma_attribute_round_trip(foreground: Color, background: Color)
    ensures
        attribute_byte(foreground, background) & 0x0f == foreground.code_spec(),
        attribute_byte(foreground, background) >> 4 == background.code_spec(),
{
    let f = foreground.code_spec();
    let b = background.code_spec();
    foreground.lemma_code_bound();
    background.lemma_code_bound();
    assert(f < 16 && b < 16 ==> ((b << 4) | f) & 0x0f == f) by (bit_vector);
    assert(f < 16 && b < 16 ==> ((b << 4) | f) >> 4 == b) by (bit_vector);
}

} // verus!
