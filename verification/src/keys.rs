//! Hash table keys that stand for a pair of a document handle and a page handle, or of a document
//! handle and an index position.
use crate::handles::{FPDF_DOCUMENT, FPDF_PAGE, PdfPageIndex};
use vstd::prelude::*;

verus! {

/// The number of page handles that one document handle leaves room for.
pub const PAGE_SPAN: u128 = 0x1_0000_0000_0000_0000;

/// The number of index positions that one document handle leaves room for.
pub const INDEX_SPAN: u128 = 0x1_0000_0000;

/// The distance of the smallest index position from zero.
pub const INDEX_OFFSET: i64 = 0x8000_0000;

/// The key of the given document and page.
pub open spec fn page_key(document: FPDF_DOCUMENT, page: FPDF_PAGE) -> u128 {
    (document * PAGE_SPAN + page) as u128
}

/// The key of the given document and index position.
pub open spec fn index_key(document: FPDF_DOCUMENT, index: PdfPageIndex) -> u128 {
    (document * INDEX_SPAN + index + INDEX_OFFSET) as u128
}

/// Different pairs of a document and a page have different keys.
pub proof fn lemma_page_key_injective(
    document: FPDF_DOCUMENT,
    page: FPDF_PAGE,
    other_document: FPDF_DOCUMENT,
    other_page: FPDF_PAGE,
)
    requires
        page_key(document, page) == page_key(other_document, other_page),
    ensures
        document == other_document,
        page == other_page,
{
}

/// Different pairs of a document and an index position have different keys.
pub proof fn lemma_index_key_injective(
    document: FPDF_DOCUMENT,
    index: PdfPageIndex,
    other_document: FPDF_DOCUMENT,
    other_index: PdfPageIndex,
)
    requires
        index_key(document, index) == index_key(other_document, other_index),
    ensures
        document == other_document,
        index == other_index,
{
}

/// Packs the given document and page into their key.
pub fn pack_page(document: FPDF_DOCUMENT, page: FPDF_PAGE) -> (key: u128)
    ensures
        key == page_key(document, page),
{
    document as u128 * PAGE_SPAN + page as u128
}

/// Packs the given document and index position into their key.
pub fn pack_index(document: FPDF_DOCUMENT, index: PdfPageIndex) -> (key: u128)
    ensures
        key == index_key(document, index),
{
    document as u128 * INDEX_SPAN + (index as i64 + INDEX_OFFSET) as u128
}

/// Returns the page in the given key of a document and a page, if the key is one of the given
/// document.
pub fn page_in(key: u128, document: FPDF_DOCUMENT) -> (result: Option<FPDF_PAGE>)
    requires
        exists|d: FPDF_DOCUMENT, p: FPDF_PAGE| key == #[trigger] page_key(d, p),
    ensures
        match result {
            Some(page) => key == page_key(document, page),
            None => forall|p: FPDF_PAGE| key != #[trigger] page_key(document, p),
        },
{
    let ghost (d, p) = choose|d: FPDF_DOCUMENT, p: FPDF_PAGE| key == #[trigger] page_key(d, p);
    assert(key / PAGE_SPAN == d && key % PAGE_SPAN == p);
    if key / PAGE_SPAN == document as u128 {
        Some((key % PAGE_SPAN) as FPDF_PAGE)
    } else {
        None
    }
}

/// Returns the index position in the given key of a document and an index position, if the key is
/// one of the given document.
pub fn index_in(key: u128, document: FPDF_DOCUMENT) -> (result: Option<PdfPageIndex>)
    requires
        exists|d: FPDF_DOCUMENT, i: PdfPageIndex| key == #[trigger] index_key(d, i),
    ensures
        match result {
            Some(index) => key == index_key(document, index),
            None => forall|i: PdfPageIndex| key != #[trigger] index_key(document, i),
        },
{
    let ghost (d, i) = choose|d: FPDF_DOCUMENT, i: PdfPageIndex| key == #[trigger] index_key(d, i);
    assert(key / INDEX_SPAN == d && key % INDEX_SPAN == i + INDEX_OFFSET);
    if key / INDEX_SPAN == document as u128 {
        Some(((key % INDEX_SPAN) as i64 - INDEX_OFFSET) as PdfPageIndex)
    } else {
        None
    }
}

} // verus!
