use slideview::parser::{assemble, parse_document};
use slideview::slide::{BlockItem, ParseError, Slide};

#[test]
fn parse_is_deterministic() {
    let doc = "first\n\n!img.png\n\nlast  ";
    let a = parse_document(doc).unwrap();
    let b = parse_document(doc).unwrap();
    assert_eq!(a, b);
}

#[test]
fn single_block_is_one_paragraph_of_trimmed_text() {
    let items = parse_document("  hello there\nworld \n").unwrap();
    assert_eq!(items, vec![BlockItem::Text("hello there\nworld".to_string())]);
    let slides = assemble(&items, &vec![None]).unwrap();
    assert_eq!(slides, vec![Slide::Paragraph("hello there\nworld".to_string())]);
}

#[test]
fn three_blocks_become_three_paragraphs_in_order() {
    let items = parse_document("a\n\nb\n\nc").unwrap();
    let slides = assemble(&items, &vec![None, None, None]).unwrap();
    assert_eq!(
        slides,
        vec![
            Slide::Paragraph("a".to_string()),
            Slide::Paragraph("b".to_string()),
            Slide::Paragraph("c".to_string()),
        ]
    );
}

#[test]
fn image_directive_becomes_file_uri() {
    let items = parse_document("!/tmp/x.png").unwrap();
    assert_eq!(items, vec![BlockItem::ImagePath("/tmp/x.png".to_string())]);
    let slides = assemble(&items, &vec![Some("/tmp/x.png".to_string())]).unwrap();
    assert_eq!(slides, vec![Slide::Image("file:///tmp/x.png".to_string())]);
}

#[test]
fn whitespace_only_document_is_empty_document_error() {
    assert_eq!(parse_document(" \t \n\n  \r\n "), Err(ParseError::EmptyDocument));
}

#[test]
fn empty_document_is_empty_document_error() {
    assert_eq!(parse_document(""), Err(ParseError::EmptyDocument));
}

#[test]
fn unicode_whitespace_only_document_is_empty_document_error() {
    assert_eq!(parse_document("\u{a0}"), Err(ParseError::EmptyDocument));
    assert_eq!(parse_document("\u{2003}\u{85}\u{3000}"), Err(ParseError::EmptyDocument));
}

#[test]
fn unicode_whitespace_is_trimmed_from_single_blocks() {
    let items = parse_document("\u{a0}a\u{2028}").unwrap();
    assert_eq!(items, vec![BlockItem::Text("a".to_string())]);
}

#[test]
fn unresolvable_image_path_reports_index_and_raw_path() {
    let items = parse_document("intro\n\n!missing.png\n\noutro").unwrap();
    let r = assemble(&items, &vec![None, None, None]);
    assert_eq!(
        r,
        Err(ParseError::UnresolvableImagePath { index: 1, path: "missing.png".to_string() })
    );
}

#[test]
fn first_unresolvable_directive_wins() {
    let items = parse_document("!a.png\n\n!b.png").unwrap();
    let r = assemble(&items, &vec![None, Some("/b.png".to_string())]);
    assert_eq!(r, Err(ParseError::UnresolvableImagePath { index: 0, path: "a.png".to_string() }));
}

#[test]
fn directive_path_is_first_line_only() {
    let items = parse_document("!pic.png\nignored caption line").unwrap();
    assert_eq!(items, vec![BlockItem::ImagePath("pic.png".to_string())]);
}

#[test]
fn bang_inside_paragraph_is_not_a_directive() {
    let items = parse_document("watch out!\nreally!").unwrap();
    assert_eq!(items, vec![BlockItem::Text("watch out!\nreally!".to_string())]);
}

#[test]
fn interior_newlines_are_preserved_in_blocks() {
    let items = parse_document("line one\nline two\n\nsecond block").unwrap();
    assert_eq!(
        items,
        vec![
            BlockItem::Text("line one\nline two".to_string()),
            BlockItem::Text("second block".to_string()),
        ]
    );
}

#[test]
fn triple_newline_yields_an_empty_middle_block() {
    let items = parse_document("a\n\n\n\nb").unwrap();
    assert_eq!(
        items,
        vec![
            BlockItem::Text("a".to_string()),
            BlockItem::Text("".to_string()),
            BlockItem::Text("b".to_string()),
        ]
    );
}

#[test]
fn errors_describe_themselves() {
    assert_eq!(ParseError::EmptyDocument.describe(), "the document holds no slide");
    let e = ParseError::UnresolvableImagePath { index: 2, path: "x.png".to_string() };
    assert_eq!(e.describe(), "an image directive's path does not resolve: x.png");
}

#[test]
fn mixed_document_assembles_in_document_order() {
    let items = parse_document("title\n\n!shot.png\n\nthe end").unwrap();
    let slides = assemble(&items, &vec![None, Some("/abs/shot.png".to_string()), None]).unwrap();
    assert_eq!(
        slides,
        vec![
            Slide::Paragraph("title".to_string()),
            Slide::Image("file:///abs/shot.png".to_string()),
            Slide::Paragraph("the end".to_string()),
        ]
    );
}
