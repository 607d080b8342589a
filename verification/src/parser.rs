//! The slide parser: a document is trimmed, split at blank lines into
//! blocks, and each block becomes a paragraph or — when it starts with the
//! directive mark `!` — the path of an image to resolve. A second step turns
//! classified blocks and the host's path resolutions into finished slides.

use vstd::prelude::*;

use crate::slide::{
    items_view, slides_view, BlockItem, ErrorModel, ItemModel, ParseError, Slide, SlideModel,
};
use crate::text::{
    first_line, first_line_spec, is_sep_at, lemma_split_blocks_no_sep, split_blocks,
    split_blocks_exec, strings_view, trim, trim_spec,
};

verus! {

/// How one block of the trimmed document is read: a block whose first
/// character is the directive mark `!` names an image by the remainder of
/// its first line; every other block is paragraph text, verbatim.
pub open spec fn classify_spec(b: Seq<char>) -> ItemModel {
    if b.len() > 0 && b[0] == '!' {
        ItemModel::ImagePath(first_line_spec(b.subrange(1, b.len() as int)))
    } else {
        ItemModel::Text(b)
    }
}

/// The classified blocks of a document: trim it, split it at blank lines,
/// and read each block.
pub open spec fn parse_items_spec(d: Seq<char>) -> Seq<ItemModel> {
    split_blocks(trim_spec(d)).map_values(|b: Seq<char>| classify_spec(b))
}

fn classify(b: &String) -> (it: BlockItem)
    ensures
        it@ == classify_spec(b@),
{
    let n = b.as_str().unicode_len();
    if n > 0 && b.as_str().get_char(0) == '!' {
        let rest = b.as_str().substring_char(1, n);
        let path = first_line(rest);
        BlockItem::ImagePath(path.to_owned())
    } else {
        BlockItem::Text(b.clone())
    }
}

/// Parses a document into its classified blocks, in document order.
///
/// A document that trims to the empty string is rejected as
/// `ParseError::EmptyDocument`; every other document yields exactly the
/// blocks `parse_items_spec` describes.
pub fn parse_document(doc: &str) -> (r: Result<Vec<BlockItem>, ParseError>)
    ensures
        trim_spec(doc@).len() == 0 <==> (r matches Err(e) && e@ == ErrorModel::EmptyDocument),
        trim_spec(doc@).len() > 0 ==> (r matches Ok(v) && items_view(v@) == parse_items_spec(
            doc@,
        )),
{
    let trimmed = trim(doc);
    if trimmed.unicode_len() == 0 {
        return Err(ParseError::EmptyDocument);
    }
    let blocks = split_blocks_exec(trimmed);
    let mut items: Vec<BlockItem> = Vec::new();
    let mut k: usize = 0;
    while k < blocks.len()
        invariant
            strings_view(blocks@) == split_blocks(trim_spec(doc@)),
            k <= blocks@.len(),
            items@.len() == k,
            forall|j: int| 0 <= j < k ==> #[trigger] items@[j]@ == classify_spec(
                strings_view(blocks@)[j],
            ),
        decreases blocks@.len() - k,
    {
        let it = classify(&blocks[k]);
        items.push(it);
        k = k + 1;
    }
    proof {
        assert(items_view(items@) =~= parse_items_spec(doc@));
    }
    Ok(items)
}

/// Whether an item needs no resolution, or has one.
pub open spec fn item_resolved(it: ItemModel, res: Option<Seq<char>>) -> bool {
    it is Text || res is Some
}

/// The `file://`-scheme locator for a resolved absolute path.
pub open spec fn file_uri_spec(path: Seq<char>) -> Seq<char> {
    "file://"@ + path
}

/// The slide an item becomes, given the resolution of its path (unused for
/// paragraph items).
pub open spec fn slide_spec(it: ItemModel, res: Option<Seq<char>>) -> SlideModel {
    match it {
        ItemModel::Text(t) => SlideModel::Paragraph(t),
        ItemModel::ImagePath(_) => match res {
            Option::Some(abs) => SlideModel::Image(file_uri_spec(abs)),
            Option::None => arbitrary(),
        },
    }
}

/// The view of one resolution.
pub open spec fn resolution_view(res: Option<String>) -> Option<Seq<char>> {
    match res {
        Option::Some(s) => Option::Some(s@),
        Option::None => Option::None,
    }
}

/// The views of a vector of resolutions, in order.
pub open spec fn resolutions_view(v: Seq<Option<String>>) -> Seq<Option<Seq<char>>> {
    v.map_values(|o: Option<String>| resolution_view(o))
}

fn file_uri(path: &String) -> (r: String)
    ensures
        r@ == file_uri_spec(path@),
{
    let mut u = "file://".to_owned();
    u.append(path.as_str());
    u
}

/// Turns classified blocks into finished slides, given the host's
/// resolution of each image path to a canonical absolute path (`None` where
/// resolution failed; the entry of a paragraph block is ignored).
///
/// Succeeds exactly when every image directive resolved; otherwise it
/// reports the first unresolved directive with its slide index and raw
/// path. Paragraph text is carried over verbatim, and each resolved path
/// `p` becomes the locator `file://p`.
pub fn assemble(items: &Vec<BlockItem>, resolved: &Vec<Option<String>>) -> (r: Result<
    Vec<Slide>,
    ParseError,
>)
    requires
        items@.len() == resolved@.len(),
    ensures
        (forall|k: int|
            0 <= k < items@.len() ==> item_resolved(
                items_view(items@)[k],
                resolutions_view(resolved@)[k],
            )) <==> r is Ok,
        r matches Ok(slides) ==> {
            &&& slides@.len() == items@.len()
            &&& forall|k: int|
                0 <= k < items@.len() ==> slides_view(slides@)[k] == slide_spec(
                    items_view(items@)[k],
                    resolutions_view(resolved@)[k],
                )
        },
        r matches Err(e) ==> {
            &&& e@ matches ErrorModel::UnresolvableImagePath { index, path } ==> {
                &&& 0 <= index < items@.len()
                &&& items_view(items@)[index] == ItemModel::ImagePath(path)
                &&& resolutions_view(resolved@)[index] is None
                &&& forall|j: int|
                    0 <= j < index ==> item_resolved(
                        items_view(items@)[j],
                        resolutions_view(resolved@)[j],
                    )
            }
            &&& e@ is UnresolvableImagePath
        },
{
    let mut slides: Vec<Slide> = Vec::new();
    let mut k: usize = 0;
    while k < items.len()
        invariant
            items@.len() == resolved@.len(),
            k <= items@.len(),
            slides@.len() == k,
            forall|j: int|
                0 <= j < k ==> item_resolved(items_view(items@)[j], resolutions_view(resolved@)[j]),
            forall|j: int|
                0 <= j < k ==> slides_view(slides@)[j] == slide_spec(
                    items_view(items@)[j],
                    resolutions_view(resolved@)[j],
                ),
        decreases items@.len() - k,
    {
        let ghost prev = slides@;
        match &items[k] {
            BlockItem::Text(t) => {
                slides.push(Slide::Paragraph(t.clone()));
            },
            BlockItem::ImagePath(p) => {
                match &resolved[k] {
                    Option::Some(abs) => {
                        let uri = file_uri(abs);
                        slides.push(Slide::Image(uri));
                    },
                    Option::None => {
                        return Err(
                            ParseError::UnresolvableImagePath { index: k, path: p.clone() },
                        );
                    },
                }
            },
        }
        proof {
            assert(forall|j: int| 0 <= j < k ==> slides@[j] == prev[j]);
            assert(forall|j: int|
                0 <= j < k ==> #[trigger] slides_view(slides@)[j] == slides_view(prev)[j]);
            assert(slides_view(slides@)[k as int] == slide_spec(
                items_view(items@)[k as int],
                resolutions_view(resolved@)[k as int],
            ));
        }
        k = k + 1;
    }
    Ok(slides)
}

/// Law: parsing is deterministic. The parse of a document is a function of
/// the document text alone — `parse_document`'s contract ties its result to
/// `parse_items_spec` of the input — so two parses of equal texts are
/// element-wise equal.
pub proof fn lemma_parse_deterministic(d1: Seq<char>, d2: Seq<char>)
    requires
        d1 == d2,
    ensures
        parse_items_spec(d1) == parse_items_spec(d2),
        trim_spec(d1).len() == trim_spec(d2).len(),
{
}

/// Law: a non-empty document with no blank-line separator and no leading
/// directive mark parses to exactly one paragraph whose text is the trimmed
/// document, whatever resolution the host supplies for it.
pub proof fn lemma_single_block_paragraph(d: Seq<char>)
    requires
        trim_spec(d).len() > 0,
        forall|i: int| !is_sep_at(trim_spec(d), i),
        trim_spec(d)[0] != '!',
    ensures
        parse_items_spec(d) == seq![ItemModel::Text(trim_spec(d))],
        forall|res: Option<Seq<char>>|
            slide_spec(ItemModel::Text(trim_spec(d)), res) == SlideModel::Paragraph(trim_spec(d)),
{
    lemma_split_blocks_no_sep(trim_spec(d));
    assert(parse_items_spec(d) =~= seq![ItemModel::Text(trim_spec(d))]);
}

} // verus!
