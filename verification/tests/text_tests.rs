use slideview::text::{first_line, split_blocks_exec, trim};

#[test]
fn trim_removes_outer_whitespace_only() {
    assert_eq!(trim("  a b \n"), "a b");
    assert_eq!(trim("\t\r\n x \u{b}\u{c}"), "x");
    assert_eq!(trim("inner  space"), "inner  space");
    assert_eq!(trim(""), "");
    assert_eq!(trim(" \n\t "), "");
}

#[test]
fn trim_matches_the_standard_trim_on_unicode_whitespace() {
    let edged = "\u{a0}\u{1680}\u{2000}mid\u{2009}text\u{205f}\u{3000}\u{2029}";
    assert_eq!(trim(edged), edged.trim());
    assert_eq!(trim(edged), "mid\u{2009}text");
    assert_eq!(trim("\u{85}\u{202f}"), "");
}

#[test]
fn split_blocks_separates_on_blank_lines() {
    assert_eq!(split_blocks_exec("a\n\nb\n\nc"), vec!["a", "b", "c"]);
    assert_eq!(split_blocks_exec("no separator"), vec!["no separator"]);
    assert_eq!(split_blocks_exec(""), vec![""]);
    assert_eq!(split_blocks_exec("a\nb\n\nc"), vec!["a\nb", "c"]);
}

#[test]
fn first_line_stops_at_the_first_line_feed() {
    assert_eq!(first_line("path.png\nrest"), "path.png");
    assert_eq!(first_line("no feed"), "no feed");
    assert_eq!(first_line("\nleading"), "");
    assert_eq!(first_line(""), "");
}
