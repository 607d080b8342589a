//! A minimal presentation core: a plain-text document is parsed into an
//! ordered sequence of slides (paragraphs or images), a navigation state
//! steps through them clamped to the ends, and a layout engine picks a font
//! size and margin that fit a paragraph's longest line into the viewport.
//!
//! All geometry is carried in integer milli-units (thousandths of the
//! device-independent unit the host reports widths in), so the arithmetic
//! is exact and fully specified.

pub mod layout;
pub mod nav;
pub mod parser;
pub mod slide;
pub mod text;
pub mod viewer;
