//! The slide data model: a presentation is an ordered sequence of slides,
//! each a text paragraph or an image, and parsing can fail in exactly two
//! ways.

use vstd::prelude::*;

verus! {

/// One displayable unit of the presentation.
#[derive(Debug, PartialEq, Eq)]
pub enum Slide {
    /// Text content to be centered and auto-sized.
    Paragraph(String),
    /// An absolute, scheme-qualified resource locator for image data.
    Image(String),
}

/// The mathematical model of a `Slide`: the same two variants over
/// character sequences.
pub enum SlideModel {
    Paragraph(Seq<char>),
    Image(Seq<char>),
}

impl View for Slide {
    type V = SlideModel;

    open spec fn view(&self) -> SlideModel {
        match self {
            Slide::Paragraph(t) => SlideModel::Paragraph(t@),
            Slide::Image(u) => SlideModel::Image(u@),
        }
    }
}

/// The views of a vector of slides, in order.
pub open spec fn slides_view(v: Seq<Slide>) -> Seq<SlideModel> {
    v.map_values(|s: Slide| s@)
}

/// One block of the document, classified but not yet resolved: plain
/// paragraph text, or the path named by an image directive.
#[derive(Debug, PartialEq, Eq)]
pub enum BlockItem {
    Text(String),
    ImagePath(String),
}

/// The mathematical model of a `BlockItem`.
pub enum ItemModel {
    Text(Seq<char>),
    ImagePath(Seq<char>),
}

impl View for BlockItem {
    type V = ItemModel;

    open spec fn view(&self) -> ItemModel {
        match self {
            BlockItem::Text(t) => ItemModel::Text(t@),
            BlockItem::ImagePath(p) => ItemModel::ImagePath(p@),
        }
    }
}

/// The views of a vector of block items, in order.
pub open spec fn items_view(v: Seq<BlockItem>) -> Seq<ItemModel> {
    v.map_values(|it: BlockItem| it@)
}

/// Why a document was rejected. Every parse failure is fatal: no partial
/// presentation is ever produced.
#[derive(Debug, PartialEq, Eq)]
pub enum ParseError {
    /// The document trims to the empty string, so it holds no slide.
    EmptyDocument,
    /// An image directive's path could not be resolved; `index` is the
    /// offending slide's position and `path` the raw directive path.
    UnresolvableImagePath { index: usize, path: String },
}

/// The mathematical model of a `ParseError`.
pub enum ErrorModel {
    EmptyDocument,
    UnresolvableImagePath { index: int, path: Seq<char> },
}

impl View for ParseError {
    type V = ErrorModel;

    open spec fn view(&self) -> ErrorModel {
        match self {
            ParseError::EmptyDocument => ErrorModel::EmptyDocument,
            ParseError::UnresolvableImagePath { index, path } => {
                ErrorModel::UnresolvableImagePath { index: *index as int, path: path@ }
            },
        }
    }
}

impl ParseError {
    /// A short human-readable description of the error, for the host to
    /// print before exiting.
    pub fn describe(&self) -> (r: String)
        ensures
            self@ is EmptyDocument ==> r@ == "the document holds no slide"@,
            self@ is UnresolvableImagePath ==> r@ == "an image directive's path does not resolve: "@
                + self@->UnresolvableImagePath_path,
    {
        match self {
            ParseError::EmptyDocument => "the document holds no slide".to_owned(),
            ParseError::UnresolvableImagePath { index: _, path } => {
                let mut m = "an image directive's path does not resolve: ".to_owned();
                m.append(path.as_str());
                m
            },
        }
    }
}

} // verus!
