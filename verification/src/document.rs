//! The mathematical model of what is cached for one document.
use crate::handles::{FPDF_PAGE, PdfPageContentRegenerationStrategy, fits};
use vstd::prelude::*;

verus! {

/// What is cached for one page.
pub struct PageProperties {
    /// The index position of the page in its document.
    pub index: int,
    /// When the content of the page is regenerated.
    pub content_regeneration_strategy: PdfPageContentRegenerationStrategy,
}

/// What is cached for one document.
///
/// One page of a document can be open under several handles at a time. Each handle is cached as a
/// page of its own; at their common index position, the one that was cached last is on record.
#[verifier::ext_equal]
pub struct DocumentPages {
    /// The properties of each cached page.
    pub properties: Map<FPDF_PAGE, PageProperties>,
    /// The page on record at each index position.
    pub page_at: Map<int, FPDF_PAGE>,
    /// The maximum index position on record for the document. It is at least that of each cached
    /// page. It can be more, where pages were inserted that have not been cached, or a page was
    /// cached again at a smaller position.
    pub maximum: Option<int>,
}

/// Whether any page is cached.
pub open spec fn any_cached(properties: Map<FPDF_PAGE, PageProperties>) -> bool {
    exists|p: FPDF_PAGE| #[trigger] properties.contains_key(p)
}

/// Whether `m` is the greatest index position of a cached page.
pub open spec fn is_greatest(properties: Map<FPDF_PAGE, PageProperties>, m: int) -> bool {
    &&& exists|p: FPDF_PAGE| #[trigger] properties.contains_key(p) && properties[p].index == m
    &&& forall|p: FPDF_PAGE| #[trigger] properties.contains_key(p) ==> properties[p].index <= m
}

/// The greatest index position of a cached page, if any page is cached.
pub open spec fn greatest(properties: Map<FPDF_PAGE, PageProperties>) -> Option<int> {
    if exists|m: int| is_greatest(properties, m) {
        Some(choose|m: int| is_greatest(properties, m))
    } else {
        None
    }
}

impl DocumentPages {
    /// A document of which nothing is cached.
    pub open spec fn empty() -> Self {
        DocumentPages { properties: Map::empty(), page_at: Map::empty(), maximum: None }
    }

    /// Whether some page is cached at the index position `index`.
    pub open spec fn occupied(self, index: int) -> bool {
        exists|p: FPDF_PAGE| #[trigger]
            self.properties.contains_key(p) && self.properties[p].index == index
    }

    // What holds at any time.

    /// Whether each page on record at an index position is cached at that position.
    pub open spec fn accurate(self) -> bool {
        forall|i: int| #[trigger]
            self.page_at.contains_key(i) ==> self.properties.contains_key(self.page_at[i])
                && self.properties[self.page_at[i]].index == i
    }

    /// Whether no page is cached behind the maximum.
    pub open spec fn bounded(self) -> bool {
        forall|p: FPDF_PAGE| #[trigger]
            self.properties.contains_key(p) ==> (self.maximum matches Some(m)
                && self.properties[p].index <= m)
    }

    /// What holds of each document at any time.
    pub open spec fn valid(self) -> bool {
        self.accurate() && self.bounded()
    }

    // What holds of documents that are used in a certain way.

    /// Whether each cached page is on record at its index position: whether no two share one.
    pub open spec fn linked(self) -> bool {
        forall|p: FPDF_PAGE| #[trigger]
            self.properties.contains_key(p) ==> self.page_at.contains_key(self.properties[p].index)
                && self.page_at[self.properties[p].index] == p
    }

    /// Whether the maximum is the greatest index position of a cached page, and absent where no
    /// page is cached.
    pub open spec fn tight(self) -> bool {
        match self.maximum {
            Some(m) => is_greatest(self.properties, m),
            None => !any_cached(self.properties),
        }
    }

    /// Whether no page is cached at a negative index position.
    pub open spec fn zero_based(self) -> bool {
        forall|p: FPDF_PAGE| #[trigger]
            self.properties.contains_key(p) ==> 0 <= self.properties[p].index
    }

    // What one call does.

    /// What is on record apart from `page`, where it is the page on record at the index position
    /// at which it is cached.
    pub open spec fn page_at_without(self, page: FPDF_PAGE) -> Map<int, FPDF_PAGE> {
        if self.properties.contains_key(page) && self.page_at.get(self.properties[page].index)
            == Some(page) {
            self.page_at.remove(self.properties[page].index)
        } else {
            self.page_at
        }
    }

    /// Forgets `page`, and its record where it is the page on record at its index position. Where
    /// that position was the maximum, or no page is left, the maximum becomes the greatest index
    /// position that is left, if any.
    pub open spec fn remove(self, page: FPDF_PAGE) -> Self {
        if self.properties.contains_key(page) {
            let index = self.properties[page].index;
            let properties = self.properties.remove(page);
            DocumentPages {
                properties,
                page_at: self.page_at_without(page),
                maximum: if self.maximum == Some(index) || !any_cached(properties) {
                    greatest(properties)
                } else {
                    self.maximum
                },
            }
        } else {
            self
        }
    }

    /// Caches `properties` for `page`, puts the page on record at its index position, and nowhere
    /// else, and raises the maximum where that is needed. The maximum never falls.
    pub open spec fn set(self, page: FPDF_PAGE, properties: PageProperties) -> Self {
        DocumentPages {
            properties: self.properties.insert(page, properties),
            page_at: self.page_at_without(page).insert(properties.index, page),
            maximum: match self.maximum {
                Some(m) if properties.index <= m => Some(m),
                _ => Some(properties.index),
            },
        }
    }

    /// Moves each page at `low` or behind by `by` index positions, and its record with it.
    pub open spec fn shift(self, low: int, by: int) -> Self {
        DocumentPages {
            properties: self.properties.map_values(
                |e: PageProperties|
                    if e.index >= low {
                        PageProperties { index: e.index + by, ..e }
                    } else {
                        e
                    },
            ),
            page_at: Map::new(
                |i: int|
                    (i - by >= low && self.page_at.contains_key(i - by)) || (i < low
                        && self.page_at.contains_key(i)),
                |i: int|
                    if i - by >= low && self.page_at.contains_key(i - by) {
                        self.page_at[i - by]
                    } else {
                        self.page_at[i]
                    },
            ),
            maximum: self.maximum,
        }
    }

    /// Forgets each page at the index positions `low..high`, and its record with it.
    pub open spec fn evict(self, low: int, high: int) -> Self {
        DocumentPages {
            properties: Map::new(
                |p: FPDF_PAGE|
                    self.properties.contains_key(p) && !(low <= self.properties[p].index < high),
                |p: FPDF_PAGE| self.properties[p],
            ),
            page_at: Map::new(
                |i: int| self.page_at.contains_key(i) && !(low <= i < high),
                |i: int| self.page_at[i],
            ),
            maximum: self.maximum,
        }
    }

    /// The document after an insertion of `count` pages at `index`: each page at `index` or behind
    /// has moved `count` index positions towards the end. The maximum grows by `count`; that of a
    /// document without one becomes the position of the last inserted page.
    pub open spec fn insert(self, index: int, count: int) -> Self {
        DocumentPages {
            maximum: match self.maximum {
                Some(m) => Some(m + count),
                None => Some(index + count - 1),
            },
            ..self.shift(index, count)
        }
    }

    /// The maximum `m` after a deletion of `count` pages at `index`: it falls by the number of
    /// deleted positions that are not behind it.
    pub open spec fn lowered(m: int, index: int, count: int) -> int {
        if index > m {
            m
        } else if index + count <= m {
            m - count
        } else {
            index - 1
        }
    }

    /// The document after a deletion of `count` pages at `index`: the pages at
    /// `index..index + count` are forgotten, and each page behind them has moved `count` index
    /// positions towards the start. The maximum falls accordingly; where no page is left, there is
    /// none.
    pub open spec fn delete(self, index: int, count: int) -> Self {
        let left = self.evict(index, index + count).shift(index + count, -count);
        DocumentPages {
            maximum: match self.maximum {
                Some(m) if any_cached(left.properties) => Some(Self::lowered(m, index, count)),
                _ => None,
            },
            ..left
        }
    }

    // Machine limits.

    /// Whether `count` is a number of pages, and each index position that an insertion of `count`
    /// pages at `index` arrives at is a value of the index type.
    pub open spec fn insert_fits(self, index: int, count: int) -> bool {
        &&& 0 <= count
        &&& match self.maximum {
            Some(m) => fits(m + count),
            None => fits(index + count) && fits(index + count - 1),
        }
    }
}

/// Whether `count` is a number of pages, and the end of the range of `count` index positions from
/// `index` is a value of the index type.
pub open spec fn delete_fits(index: int, count: int) -> bool {
    0 <= count && fits(index + count)
}

} // verus!
