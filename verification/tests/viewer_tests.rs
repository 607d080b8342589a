use slideview::slide::Slide;
use slideview::viewer::{KeyEvent, RenderSpec, Viewer};

fn sample_viewer() -> Viewer {
    Viewer::new(vec![
        Slide::Paragraph("ab".to_string()),
        Slide::Image("file:///tmp/x.png".to_string()),
        Slide::Paragraph("the\nend".to_string()),
    ])
}

#[test]
fn viewer_starts_on_first_slide() {
    let v = sample_viewer();
    assert_eq!(v.current_index(), 0);
    assert_eq!(v.slide_count(), 3);
}

#[test]
fn next_and_previous_keys_step_with_clamping() {
    let mut v = sample_viewer();
    v.on_key(KeyEvent::Previous);
    assert_eq!(v.current_index(), 0);
    v.on_key(KeyEvent::Next);
    assert_eq!(v.current_index(), 1);
    v.on_key(KeyEvent::Next);
    assert_eq!(v.current_index(), 2);
    v.on_key(KeyEvent::Next);
    assert_eq!(v.current_index(), 2);
    v.on_key(KeyEvent::Previous);
    assert_eq!(v.current_index(), 1);
}

#[test]
fn other_keys_are_ignored() {
    let mut v = sample_viewer();
    v.on_key(KeyEvent::Other);
    assert_eq!(v.current_index(), 0);
}

#[test]
fn current_view_lays_out_paragraphs() {
    let v = sample_viewer();
    let r = v.current_view(300_000);
    assert_eq!(
        r,
        RenderSpec::Text {
            text: "ab".to_string(),
            font_size_milli: 7_500,
            margin_milli: 3_000,
        }
    );
}

#[test]
fn current_view_passes_images_through() {
    let mut v = sample_viewer();
    v.on_key(KeyEvent::Next);
    let r = v.current_view(300_000);
    assert_eq!(r, RenderSpec::Image { uri: "file:///tmp/x.png".to_string() });
}
