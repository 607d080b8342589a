use slideview::layout::{layout, LayoutResult};
use slideview::text::longest_line;

#[test]
fn two_characters_at_width_300_pins_the_formula() {
    // width 300.0 units = 300000 milli-units; the candidate 300/3 * 8/2 =
    // 400.0 exceeds the cap 300 * 0.025 = 7.5, and the margin is 300 * 0.01
    // = 3.0.
    let r = layout("ab", 300_000);
    assert_eq!(r, LayoutResult { font_size_milli: 7_500, margin_milli: 3_000 });
}

#[test]
fn long_line_shrinks_below_the_cap() {
    // a longest line of 200 characters at width 300.0: the candidate
    // 300/3 * 8/200 = 4.0 units stays under the cap of 7.5, so it is kept.
    let line = "x".repeat(200);
    let r = layout(&line, 300_000);
    assert_eq!(r.font_size_milli, 4_000);
    assert_eq!(r.margin_milli, 3_000);
}

#[test]
fn font_size_is_non_increasing_in_longest_line() {
    let width = 123_456;
    let mut previous = u64::MAX;
    for n in 1..120 {
        let line = "y".repeat(n);
        let r = layout(&line, width);
        assert!(r.font_size_milli <= previous);
        assert!(r.font_size_milli <= width / 40);
        previous = r.font_size_milli;
    }
}

#[test]
fn only_the_longest_line_matters() {
    let a = layout("short\nmuch longer line\nmid", 200_000);
    let b = layout("much longer line", 200_000);
    assert_eq!(a.font_size_milli, b.font_size_milli);
}

#[test]
fn newline_only_paragraph_is_guarded() {
    // every line is empty, so the sizing length is lifted to 1: candidate
    // = 8 * 90000 / 3 = 240000, capped at 90000 / 40 = 2250.
    let r = layout("\n\n", 90_000);
    assert_eq!(r.font_size_milli, 2_250);
}

#[test]
fn empty_text_is_guarded() {
    let r = layout("", 90_000);
    assert_eq!(r.font_size_milli, 2_250);
    assert_eq!(r.margin_milli, 900);
}

#[test]
fn longest_line_measures_characters() {
    assert_eq!(longest_line("ab\nabcd\nabc"), 4);
    assert_eq!(longest_line(""), 0);
    assert_eq!(longest_line("abc"), 3);
    assert_eq!(longest_line("ab\n"), 2);
    assert_eq!(longest_line("\nabcde"), 5);
}

#[test]
fn margin_is_one_percent_of_width() {
    let r = layout("anything", 250_000);
    assert_eq!(r.margin_milli, 2_500);
}
