//! The block of glyphs that shows a color on a terminal.

use vstd::prelude::*;
use crate::color::RGBColor;

verus! {

/// The four full-block glyphs of an untinted swatch.
pub open spec fn block_glyphs() -> Seq<char> {
    seq!['█', '█', '█', '█']
}

/// A number in decimal, without leading zeros.
pub open spec fn decimal(n: nat) -> Seq<char>
    decreases n,
{
    let digit = seq!['0', '1', '2', '3', '4', '5', '6', '7', '8', '9'][(n % 10) as int];
    if n < 10 {
        seq![digit]
    } else {
        decimal(n / 10).push(digit)
    }
}

/// The parameters that select a 24-bit foreground color: `38;2;R;G;B`.
pub open spec fn truecolor_code(color: RGBColor) -> Seq<char> {
    seq!['3', '8', ';', '2', ';'] + decimal(color.red as nat) + seq![';'] + decimal(
        color.green as nat,
    ) + seq![';'] + decimal(color.blue as nat)
}

/// The numbers that select one of the sixteen basic foreground colors.
pub open spec fn is_basic_foreground(n: nat) -> bool {
    30 <= n <= 37 || 90 <= n <= 97
}

/// The glyphs between the escape sequence that selects `code` and the one
/// that resets the rendition.
pub open spec fn tinted(code: Seq<char>) -> Seq<char> {
    seq!['\x1B', '['] + code + seq!['m'] + block_glyphs() + seq!['\x1B', '[', '0', 'm']
}

/// The forms that the display of `color` can take: the bare glyphs where
/// coloring is off, the glyphs tinted with the exact color where the terminal
/// takes 24-bit colors, and otherwise the glyphs tinted with one of the
/// sixteen basic colors.
pub open spec fn is_color_display(text: Seq<char>, color: RGBColor) -> bool {
    ||| text == block_glyphs()
    ||| text == tinted(truecolor_code(color))
    ||| exists|n: nat| is_basic_foreground(n) && text == tinted(decimal(n))
}

/// A color together with the text that shows it on the terminal.
pub struct Swatch {
    pub color: RGBColor,
    pub display: String,
}

/// What a swatch is: its color and the characters of its display.
pub struct SwatchView {
    pub color: RGBColor,
    pub display: Seq<char>,
}

impl View for Swatch {
    type V = SwatchView;

    open spec fn view(&self) -> SwatchView {
        SwatchView { color: self.color, display: self.display@ }
    }
}

/// The views of a sequence of swatches, in order.
pub open spec fn swatch_views(swatches: Seq<Swatch>) -> Seq<SwatchView> {
    Seq::new(swatches.len(), |i: int| swatches[i]@)
}

impl Swatch {
    /// The swatch of `color`, with the display that the terminal-color
    /// library gives it in this process.
    pub fn of(color: RGBColor) -> (swatch: Swatch)
        ensures
            swatch@.color == color,
            is_color_display(swatch@.display, color),
    {
        Swatch { color, display: color.get_color_display() }
    }
}

/// Whether `text` holds no line break.
pub open spec fn is_one_line(text: Seq<char>) -> bool {
    forall|k: int| 0 <= k < text.len() ==> #[trigger] text[k] != '\n'
}

/// A decimal number is one or more digits.
pub proof fn lemma_decimal_digits(n: nat)
    ensures
        decimal(n).len() >= 1,
        forall|k: int| 0 <= k < decimal(n).len() ==> '0' <= #[trigger] decimal(n)[k] <= '9',
    decreases n,
{
    if n >= 10 {
        lemma_decimal_digits(n / 10);
    }
}

/// A tinted block stays on one line if the code that tints it does.
pub proof fn lemma_tinted_is_one_line(code: Seq<char>)
    requires
        is_one_line(code),
    ensures
        is_one_line(tinted(code)),
{
    let text = tinted(code);
    assert forall|k: int| 0 <= k < text.len() implies #[trigger] text[k] != '\n' by {
        if 2 <= k < 2 + code.len() {
            assert(text[k] == code[k - 2]);
        }
    }
}

/// Whatever form the display of a color takes, it holds no line break: in a
/// swatch report the line breaks are those that end the rows and the lines of
/// the legend.
pub proof fn lemma_display_is_one_line(text: Seq<char>, color: RGBColor)
    requires
        is_color_display(text, color),
    ensures
        is_one_line(text),
{
    if text == block_glyphs() {
    } else if text == tinted(truecolor_code(color)) {
        let code = truecolor_code(color);
        let red = decimal(color.red as nat);
        let green = decimal(color.green as nat);
        let blue = decimal(color.blue as nat);
        lemma_decimal_digits(color.red as nat);
        lemma_decimal_digits(color.green as nat);
        lemma_decimal_digits(color.blue as nat);
        assert forall|k: int| 0 <= k < code.len() implies #[trigger] code[k] != '\n' by {
            let green_at = 5 + red.len() + 1;
            let blue_at = green_at + green.len() + 1;
            if 5 <= k < 5 + red.len() {
                assert(code[k] == red[k - 5]);
            } else if green_at <= k < green_at + green.len() {
                assert(code[k] == green[k - green_at]);
            } else if blue_at <= k {
                assert(code[k] == blue[k - blue_at]);
            }
        }
        lemma_tinted_is_one_line(code);
    } else {
        let n = choose|n: nat| is_basic_foreground(n) && text == tinted(decimal(n));
        lemma_decimal_digits(n);
        lemma_tinted_is_one_line(decimal(n));
    }
}

/// `colored::Colorize::truecolor` on the four glyphs, rendered to a `String`
/// by the `Display` of `colored::ColoredString`.
///
/// Trusted, not proved: the text is one of the three forms of
/// `is_color_display`. `colored` writes the bare input where its coloring
/// switch is off; else the input between the selecting sequence and the
/// reset, where the selected color is the given one if `COLORTERM` announces
/// 24-bit colors and the nearest basic color if not. The switch follows
/// `NO_COLOR`, `CLICOLOR`, `CLICOLOR_FORCE`, whether stdout is a terminal, and
/// `colored::control::set_override`, so nothing is claimed about which form
/// comes back. The claim takes the switch to stay as it is while one text is
/// rendered.
#[verifier::external_body]
pub(crate) fn truecolor_block(red: u8, green: u8, blue: u8) -> (text: String)
    ensures
        is_color_display(text@, RGBColor { red, green, blue }),
{
    colored::Colorize::truecolor("████", red, green, blue).to_string()
}

} // verus!
