//! The text that reports a pallet on the terminal: a plain list of hex codes,
//! or a grid of swatches followed by a legend.

use vstd::prelude::*;
use crate::color::{is_hex_code, lemma_hex_code_shape, RGBColor};
use crate::swatch::{
    is_color_display, is_one_line, lemma_display_is_one_line, swatch_views, Swatch, SwatchView,
};

verus! {

/// Swatches per row of the terminal grid.
pub const SWATCHES_PER_ROW: usize = 8;

/// The hex codes of the colors, one per line, with no line break after the
/// last one.
pub open spec fn normal_text(pallet: Seq<RGBColor>) -> Seq<char>
    decreases pallet.len(),
{
    if pallet.len() == 0 {
        Seq::empty()
    } else if pallet.len() == 1 {
        pallet[0].hex_code()
    } else {
        normal_text(pallet.drop_last()) + seq!['\n'] + pallet.last().hex_code()
    }
}

/// The displays one after another, with a line break after every eighth.
pub open spec fn swatch_rows(swatches: Seq<SwatchView>) -> Seq<char>
    decreases swatches.len(),
{
    if swatches.len() == 0 {
        Seq::empty()
    } else {
        swatch_rows(swatches.drop_last()) + swatches.last().display + if swatches.len()
            % SWATCHES_PER_ROW as nat == 0 {
            seq!['\n']
        } else {
            Seq::empty()
        }
    }
}

/// One line per swatch: its display, a space, and the hex code of its color.
pub open spec fn swatch_legend(swatches: Seq<SwatchView>) -> Seq<char>
    decreases swatches.len(),
{
    if swatches.len() == 0 {
        Seq::empty()
    } else {
        swatch_legend(swatches.drop_last()) + swatches.last().display + seq![' ']
            + swatches.last().color.hex_code() + seq!['\n']
    }
}

/// The grid, three line breaks, then the legend.
pub open spec fn swatch_text(swatches: Seq<SwatchView>) -> Seq<char> {
    swatch_rows(swatches) + seq!['\n', '\n', '\n'] + swatch_legend(swatches)
}

/// Line `i` of a plain report: seven characters, eight places after the start
/// of the line before.
pub open spec fn normal_line(text: Seq<char>, i: int) -> Seq<char> {
    text.subrange(8 * i, 8 * i + 7)
}

/// The displays one after another, with nothing between them.
pub open spec fn displays_text(swatches: Seq<SwatchView>) -> Seq<char>
    decreases swatches.len(),
{
    if swatches.len() == 0 {
        Seq::empty()
    } else {
        displays_text(swatches.drop_last()) + swatches.last().display
    }
}

/// Whether `swatches` pairs each color of `pallet`, in order, with one of the
/// forms that its display can take.
pub open spec fn shows_pallet(swatches: Seq<SwatchView>, pallet: Seq<RGBColor>) -> bool {
    &&& swatches.len() == pallet.len()
    &&& forall|i: int|
        0 <= i < pallet.len() ==> (#[trigger] swatches[i]).color == pallet[i] && is_color_display(
            swatches[i].display,
            pallet[i],
        )
}

/// Whether `text` is the swatch text of `pallet` under some choice of display
/// for each color.
pub open spec fn is_pallet_text(text: Seq<char>, pallet: Seq<RGBColor>) -> bool {
    exists|swatches: Seq<SwatchView>|
        shows_pallet(swatches, pallet) && text == #[trigger] swatch_text(swatches)
}

/// The plain report: the hex code of each color on a line of its own.
pub fn format_normal(pallet: &[RGBColor]) -> (text: String)
    ensures
        text@ == normal_text(pallet@),
{
    let mut text = String::new();
    for i in 0..pallet.len()
        invariant
            text@ == normal_text(pallet@.take(i as int)),
    {
        if i > 0 {
            text.append("\n");
        }
        let code = pallet[i].to_hex_code();
        text.append(code.as_str());
        proof {
            reveal_strlit("\n");
            assert(pallet@.take(i + 1).drop_last() =~= pallet@.take(i as int));
        }
    }
    proof {
        assert(pallet@.take(pallet.len() as int) =~= pallet@);
    }
    text
}

/// The swatch report for swatches whose displays are given: the grid of
/// displays, eight to a row, then a blank separator and the legend.
pub fn format_swatches(swatches: &[Swatch]) -> (text: String)
    ensures
        text@ == swatch_text(swatch_views(swatches@)),
{
    let ghost views = swatch_views(swatches@);
    let mut text = String::new();
    for i in 0..swatches.len()
        invariant
            views == swatch_views(swatches@),
            text@ == swatch_rows(views.take(i as int)),
    {
        text.append(swatches[i].display.as_str());
        if (i + 1) % SWATCHES_PER_ROW == 0 {
            text.append("\n");
        }
        proof {
            reveal_strlit("\n");
            assert(views.take(i + 1).drop_last() =~= views.take(i as int));
        }
    }
    text.append("\n\n\n");
    let ghost head = text@;
    proof {
        reveal_strlit("\n\n\n");
        assert(views.take(swatches.len() as int) =~= views);
    }
    for i in 0..swatches.len()
        invariant
            views == swatch_views(swatches@),
            text@ == head + swatch_legend(views.take(i as int)),
    {
        text.append(swatches[i].display.as_str());
        text.append(" ");
        let code = swatches[i].color.to_hex_code();
        text.append(code.as_str());
        text.append("\n");
        proof {
            reveal_strlit(" ");
            reveal_strlit("\n");
            assert(views.take(i + 1).drop_last() =~= views.take(i as int));
        }
    }
    text
}

/// The swatch report of a pallet: each color is shown as the terminal-color
/// library renders it in this process.
pub fn format_pallet(pallet: &[RGBColor]) -> (text: String)
    ensures
        is_pallet_text(text@, pallet@),
{
    let mut swatches: Vec<Swatch> = Vec::new();
    for i in 0..pallet.len()
        invariant
            swatches@.len() == i,
            shows_pallet(swatch_views(swatches@), pallet@.take(i as int)),
    {
        let ghost before = swatch_views(swatches@);
        swatches.push(Swatch::of(pallet[i]));
        proof {
            let after = swatch_views(swatches@);
            let colors = pallet@.take(i + 1);
            assert forall|j: int| 0 <= j < colors.len() implies (#[trigger] after[j]).color
                == colors[j] && is_color_display(after[j].display, colors[j]) by {
                if j < i {
                    assert(after[j] == before[j]);
                }
            }
        }
    }
    format_swatches(swatches.as_slice())
}

/// What the tool writes to standard output: the swatch report where
/// `print_colors` is set, else the plain report.
pub fn format_report(pallet: &[RGBColor], print_colors: bool) -> (text: String)
    ensures
        print_colors ==> is_pallet_text(text@, pallet@),
        !print_colors ==> text@ == normal_text(pallet@),
{
    if print_colors {
        format_pallet(pallet)
    } else {
        format_normal(pallet)
    }
}

/// A plain report has one line per color and each line is the hex code of its
/// color: the line breaks stand exactly between the codes, and none follows
/// the last code.
pub proof fn lemma_normal_text_lines(pallet: Seq<RGBColor>)
    ensures
        pallet.len() == 0 ==> normal_text(pallet).len() == 0,
        pallet.len() > 0 ==> normal_text(pallet).len() == 8 * pallet.len() - 1,
        forall|i: int|
            0 <= i < pallet.len() ==> #[trigger] normal_line(normal_text(pallet), i)
                == pallet[i].hex_code() && is_hex_code(pallet[i].hex_code()),
        forall|k: int|
            0 <= k < normal_text(pallet).len() ==> (#[trigger] normal_text(pallet)[k] == '\n' <==> k
                % 8 == 7),
    decreases pallet.len(),
{
    let text = normal_text(pallet);
    if pallet.len() == 1 {
        lemma_hex_code_shape(pallet[0]);
    } else if pallet.len() > 1 {
        let front = pallet.drop_last();
        let head = normal_text(front);
        let code = pallet.last().hex_code();
        lemma_normal_text_lines(front);
        lemma_hex_code_shape(pallet.last());
        assert forall|i: int| 0 <= i < pallet.len() implies #[trigger] normal_line(text, i)
            == pallet[i].hex_code() && is_hex_code(pallet[i].hex_code()) by {
            if i < front.len() {
                assert(normal_line(text, i) =~= normal_line(head, i));
            }
        }
        assert forall|k: int| 0 <= k < text.len() implies (#[trigger] text[k] == '\n' <==> k % 8
            == 7) by {}
    }
}

/// The grid wraps after every eighth swatch: fewer than eight swatches stand
/// on one unbroken row; from eight on, the first eight are followed by a line
/// break and the rest are laid out after it in the same way.
pub proof fn lemma_swatch_rows_wrap(swatches: Seq<SwatchView>)
    ensures
        swatches.len() < SWATCHES_PER_ROW ==> swatch_rows(swatches) == displays_text(swatches),
        swatches.len() >= SWATCHES_PER_ROW ==> swatch_rows(swatches) == displays_text(
            swatches.take(SWATCHES_PER_ROW as int),
        ) + seq!['\n'] + swatch_rows(swatches.skip(SWATCHES_PER_ROW as int)),
    decreases swatches.len(),
{
    if swatches.len() > 0 {
        let front = swatches.drop_last();
        lemma_swatch_rows_wrap(front);
        let first = swatches.take(SWATCHES_PER_ROW as int);
        let rest = swatches.skip(SWATCHES_PER_ROW as int);
        if swatches.len() == SWATCHES_PER_ROW {
            assert(first =~= swatches);
            assert(swatch_rows(swatches) =~= displays_text(first) + seq!['\n'] + swatch_rows(rest));
        } else if swatches.len() > SWATCHES_PER_ROW {
            assert(first =~= front.take(SWATCHES_PER_ROW as int));
            assert(rest.drop_last() =~= front.skip(SWATCHES_PER_ROW as int));
            assert(swatch_rows(swatches) =~= displays_text(first) + seq!['\n'] + swatch_rows(rest));
        }
    }
}

/// The displays of a pallet, set one after another, hold no line break.
pub proof fn lemma_displays_are_one_line(swatches: Seq<SwatchView>, pallet: Seq<RGBColor>)
    requires
        shows_pallet(swatches, pallet),
    ensures
        is_one_line(displays_text(swatches)),
    decreases swatches.len(),
{
    if swatches.len() > 0 {
        let front = displays_text(swatches.drop_last());
        assert(shows_pallet(swatches.drop_last(), pallet.drop_last()));
        lemma_displays_are_one_line(swatches.drop_last(), pallet.drop_last());
        lemma_display_is_one_line(swatches.last().display, pallet.last());
        let text = displays_text(swatches);
        assert forall|k: int| 0 <= k < text.len() implies #[trigger] text[k] != '\n' by {
            if k >= front.len() {
                assert(text[k] == swatches.last().display[k - front.len()]);
            }
        }
    }
}

/// The swatch report of eight or more colors begins with the displays of the
/// first eight on one line, and the line ends right after the eighth.
pub proof fn lemma_first_row_of_pallet_text(swatches: Seq<SwatchView>, pallet: Seq<RGBColor>)
    requires
        shows_pallet(swatches, pallet),
        pallet.len() >= SWATCHES_PER_ROW,
    ensures
        ({
            let row = displays_text(swatches.take(SWATCHES_PER_ROW as int));
            let text = swatch_text(swatches);
            &&& is_one_line(row)
            &&& row.len() < text.len()
            &&& text.subrange(0, row.len() as int) == row
            &&& text[row.len() as int] == '\n'
        }),
{
    let first = swatches.take(SWATCHES_PER_ROW as int);
    let row = displays_text(first);
    assert(shows_pallet(first, pallet.take(SWATCHES_PER_ROW as int)));
    lemma_displays_are_one_line(first, pallet.take(SWATCHES_PER_ROW as int));
    lemma_swatch_rows_wrap(swatches);
    assert(swatch_text(swatches).subrange(0, row.len() as int) =~= row);
}

} // verus!
