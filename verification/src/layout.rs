//! The layout engine: for a paragraph and the current viewport width it
//! picks the font size and margin to render with. A line of 8 characters
//! should occupy about one third of the viewport, so the font size scales
//! inversely with the longest line, capped at 2.5% of the width; the margin
//! is 1% of the width.
//!
//! Widths and results are integer milli-units — thousandths of the
//! device-independent unit the host measures the viewport in — so every
//! quantity here is exact: `font = min(8w / (3L), w / 40)` and
//! `margin = w / 100`, rounded down.

use vstd::arithmetic::div_mod::{lemma_div_denominator, lemma_div_is_ordered_by_denominator};
use vstd::prelude::*;

use crate::text::{longest_line, longest_line_len};

verus! {

/// The largest viewport width `layout` accepts, chosen so that the
/// arithmetic stays inside `u64`.
pub const WIDTH_MILLI_MAX: u64 = 0x1fff_ffff_ffff_ffff;

/// What to render a paragraph with, in milli-units.
#[derive(Clone, Copy, Debug, PartialEq, Eq, Structural)]
pub struct LayoutResult {
    pub font_size_milli: u64,
    pub margin_milli: u64,
}

/// The longest-line length used for sizing: a paragraph of only line feeds
/// has a longest line of zero characters, which is lifted to one so that
/// the size formula never divides by zero.
pub open spec fn sizing_len(text: Seq<char>) -> int {
    if longest_line_len(text) == 0 {
        1
    } else {
        longest_line_len(text) as int
    }
}

/// The font size for a paragraph: a third of the viewport scaled by
/// `8 / longest`, but never above 2.5% of the viewport.
pub open spec fn font_size_milli_spec(w: int, text: Seq<char>) -> int {
    let candidate = 8 * w / (3 * sizing_len(text));
    let cap = w / 40;
    if candidate <= cap {
        candidate
    } else {
        cap
    }
}

/// The margin for a paragraph: 1% of the viewport, on all sides.
pub open spec fn margin_milli_spec(w: int) -> int {
    w / 100
}

/// Computes the font size and margin for `text` at viewport width
/// `width_milli`, exactly as `font_size_milli_spec` and
/// `margin_milli_spec` say.
pub fn layout(text: &str, width_milli: u64) -> (r: LayoutResult)
    requires
        width_milli <= WIDTH_MILLI_MAX,
    ensures
        r.font_size_milli == font_size_milli_spec(width_milli as int, text@),
        r.margin_milli == margin_milli_spec(width_milli as int),
{
    let longest_raw = longest_line(text);
    let longest: u64 = if longest_raw == 0 {
        1
    } else {
        longest_raw as u64
    };
    let eighth: u64 = 8 * width_milli;
    let third: u64 = eighth / 3;
    let candidate: u64 = third / longest;
    proof {
        lemma_div_denominator(eighth as int, 3, sizing_len(text@));
    }
    let cap: u64 = width_milli / 40;
    let font_size_milli: u64 = if candidate <= cap {
        candidate
    } else {
        cap
    };
    let margin_milli: u64 = width_milli / 100;
    LayoutResult { font_size_milli, margin_milli }
}

/// Law: with the viewport width fixed, the font size never exceeds the cap
/// of 2.5% of the width, and it is non-increasing as the longest line
/// grows.
pub proof fn lemma_font_size_capped_and_monotonic(w: int, t1: Seq<char>, t2: Seq<char>)
    requires
        0 <= w,
        longest_line_len(t1) <= longest_line_len(t2),
    ensures
        font_size_milli_spec(w, t1) <= w / 40,
        font_size_milli_spec(w, t2) <= font_size_milli_spec(w, t1),
{
    lemma_div_is_ordered_by_denominator(8 * w, 3 * sizing_len(t1), 3 * sizing_len(t2));
}

} // verus!
