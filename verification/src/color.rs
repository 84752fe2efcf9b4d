//! The color value and its `#RRGGBB` hex code.

use vstd::prelude::*;
use crate::hex::{
    byte_hex, hex_byte, is_hex_digit, lemma_byte_hex_round_trip, lemma_hex_byte_inverse,
    parse_byte_hex, push_byte_hex,
};
use crate::swatch::{is_color_display, truecolor_block};

verus! {

/// A color as three 8-bit channels.
#[derive(Clone, Copy, PartialEq, Eq, Structural)]
pub struct RGBColor {
    pub red: u8,
    pub green: u8,
    pub blue: u8,
}

/// Whether `text` is `#` followed by six upper-case hex digits.
pub open spec fn is_hex_code(text: Seq<char>) -> bool {
    &&& text.len() == 7
    &&& text[0] == '#'
    &&& forall|i: int| 1 <= i < 7 ==> is_hex_digit(#[trigger] text[i])
}

/// The color that a hex code denotes; `None` for any other text.
pub open spec fn parse_hex_code(text: Seq<char>) -> Option<RGBColor> {
    if text.len() == 7 && text[0] == '#' {
        match (hex_byte(text[1], text[2]), hex_byte(text[3], text[4]), hex_byte(text[5], text[6])) {
            (Some(red), Some(green), Some(blue)) => Some(RGBColor { red, green, blue }),
            _ => None,
        }
    } else {
        None
    }
}

impl RGBColor {
    /// The hex code of the color: `#`, then red, green and blue as two digits each.
    pub open spec fn hex_code(self) -> Seq<char> {
        seq!['#'] + byte_hex(self.red) + byte_hex(self.green) + byte_hex(self.blue)
    }

    /// The color with the given channels.
    pub fn new(red: u8, green: u8, blue: u8) -> (color: RGBColor)
        ensures
            color == (RGBColor { red, green, blue }),
    {
        RGBColor { red, green, blue }
    }

    /// Formats the color as `#RRGGBB`.
    pub fn to_hex_code(&self) -> (code: String)
        ensures
            code@ == self.hex_code(),
    {
        let mut code = String::new();
        code.append("#");
        proof {
            reveal_strlit("#");
        }
        push_byte_hex(&mut code, self.red);
        push_byte_hex(&mut code, self.green);
        push_byte_hex(&mut code, self.blue);
        code
    }

    /// Reads a color back from its hex code. Accepts exactly the texts that
    /// `to_hex_code` produces.
    pub fn from_hex_code(code: &str) -> (color: Option<RGBColor>)
        ensures
            color == parse_hex_code(code@),
    {
        if code.unicode_len() != 7 {
            return None;
        }
        if code.get_char(0) != '#' {
            return None;
        }
        let red = parse_byte_hex(code.get_char(1), code.get_char(2));
        let green = parse_byte_hex(code.get_char(3), code.get_char(4));
        let blue = parse_byte_hex(code.get_char(5), code.get_char(6));
        match (red, green, blue) {
            (Some(red), Some(green), Some(blue)) => Some(RGBColor { red, green, blue }),
            _ => None,
        }
    }

    /// The color as a block of four glyphs for the terminal. Whether and how
    /// the block is tinted is decided by the terminal-color library from the
    /// process environment; the result is always one of the forms of
    /// `is_color_display`.
    pub fn get_color_display(&self) -> (display: String)
        ensures
            is_color_display(display@, *self),
    {
        truecolor_block(self.red, self.green, self.blue)
    }
}

/// Formatting a color and parsing the text gives the color back.
pub proof fn lemma_hex_code_round_trip(color: RGBColor)
    ensures
        parse_hex_code(color.hex_code()) == Some(color),
{
    lemma_byte_hex_round_trip(color.red);
    lemma_byte_hex_round_trip(color.green);
    lemma_byte_hex_round_trip(color.blue);
}

/// The texts that parse are exactly the hex codes, and parsing one gives the
/// only color that it is the code of.
pub proof fn lemma_parse_hex_code_inverse(text: Seq<char>)
    ensures
        parse_hex_code(text).is_some() <==> is_hex_code(text),
        parse_hex_code(text) matches Some(color) ==> color.hex_code() == text,
{
    if text.len() == 7 && text[0] == '#' {
        if parse_hex_code(text) is Some {
            lemma_hex_byte_inverse(text[1], text[2]);
            lemma_hex_byte_inverse(text[3], text[4]);
            lemma_hex_byte_inverse(text[5], text[6]);
        }
    }
}

/// Every hex code has the shape `#RRGGBB`.
pub proof fn lemma_hex_code_shape(color: RGBColor)
    ensures
        is_hex_code(color.hex_code()),
{
    lemma_hex_code_round_trip(color);
    lemma_parse_hex_code_inverse(color.hex_code());
}

} // verus!
