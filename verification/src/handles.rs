//! The plain types that callers exchange with the cache.
use vstd::prelude::*;

verus! {

/// The raw handle of an open document: its address, as an integer.
#[allow(non_camel_case_types)]
pub type FPDF_DOCUMENT = usize;

/// The raw handle of an open page: its address, as an integer.
#[allow(non_camel_case_types)]
pub type FPDF_PAGE = usize;

/// The zero-based index position of a page in its document, or a number of pages.
pub type PdfPageIndex = i32;

/// Whether the mathematical integer `i` is a value of [PdfPageIndex].
pub open spec fn fits(i: int) -> bool {
    PdfPageIndex::MIN <= i <= PdfPageIndex::MAX
}

/// When the content of a page is regenerated after its objects have changed.
#[derive(Clone, Copy, Debug, PartialEq, Eq)]
pub enum PdfPageContentRegenerationStrategy {
    /// After every change.
    AutomaticOnEveryChange,
    /// Once, just before the page goes out of scope.
    AutomaticOnDrop,
    /// Only when the caller asks for it.
    Manual,
}

} // verus!
