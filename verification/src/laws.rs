//! What holds of the cache as a whole.
use crate::document::{
    DocumentPages, PageProperties, any_cached, delete_fits, greatest, is_greatest,
};
use crate::handles::{FPDF_DOCUMENT, FPDF_PAGE};
use vstd::prelude::*;

verus! {

/// Where a page is cached, and none behind `high`, there is a greatest index position.
proof fn lemma_greatest_exists(
    properties: Map<FPDF_PAGE, PageProperties>,
    page: FPDF_PAGE,
    high: int,
)
    requires
        properties.contains_key(page),
        forall|p: FPDF_PAGE| #[trigger] properties.contains_key(p) ==> properties[p].index <= high,
    ensures
        greatest(properties) matches Some(m) && is_greatest(properties, m),
    decreases high - properties[page].index,
{
    if exists|p: FPDF_PAGE| #[trigger] properties.contains_key(p) && properties[p].index == high {
        assert(is_greatest(properties, high));
    } else {
        lemma_greatest_exists(properties, page, high - 1);
    }
}

/// What the removal of a cached page leaves as the maximum of a valid document, where the page was
/// the last one or at the maximum: the greatest index position that is left, and nothing where no
/// page is left.
proof fn lemma_greatest_after_remove(doc: DocumentPages, page: FPDF_PAGE)
    requires
        doc.valid(),
        doc.properties.contains_key(page),
    ensures
        match greatest(doc.properties.remove(page)) {
            Some(m) => is_greatest(doc.properties.remove(page), m),
            None => !any_cached(doc.properties.remove(page)),
        },
{
    let left = doc.properties.remove(page);
    if exists|p: FPDF_PAGE| #[trigger] left.contains_key(p) {
        let p = choose|p: FPDF_PAGE| #[trigger] left.contains_key(p);
        assert(doc.properties.contains_key(p));
        lemma_greatest_exists(left, p, doc.maximum.unwrap());
    } else {
        assert(left =~= Map::empty());
    }
}

// What holds at any time.

/// A document of which nothing is cached is valid.
pub proof fn law_empty_is_valid()
    ensures
        DocumentPages::empty().valid(),
{
}

/// Of a document of which nothing is cached, no page and no index position answers, and there is no
/// maximum.
pub proof fn law_empty_answers_nothing(page: FPDF_PAGE, index: int)
    ensures
        DocumentPages::empty().properties.get(page) is None,
        DocumentPages::empty().page_at.get(index) is None,
        DocumentPages::empty().maximum is None,
{
}

/// A document is valid just where each page on record is cached at the index position where it is
/// on record, and each cached page lies at the maximum or in front of it.
pub proof fn law_valid_in_full(doc: DocumentPages)
    ensures
        doc.valid() <==> {
            &&& forall|i: int| #[trigger]
                doc.page_at.contains_key(i) ==> doc.properties.contains_key(doc.page_at[i])
                    && doc.properties[doc.page_at[i]].index == i
            &&& forall|p: FPDF_PAGE| #[trigger]
                doc.properties.contains_key(p) ==> doc.maximum.is_some()
                    && doc.properties[p].index <= doc.maximum.unwrap()
        },
{
}

/// Removing a page keeps a document valid.
pub proof fn law_remove_keeps_valid(doc: DocumentPages, page: FPDF_PAGE)
    requires
        doc.valid(),
    ensures
        doc.remove(page).valid(),
{
    if doc.properties.contains_key(page) {
        lemma_greatest_after_remove(doc, page);
    }
}

/// Caching a page keeps a document valid.
pub proof fn law_set_keeps_valid(doc: DocumentPages, page: FPDF_PAGE, properties: PageProperties)
    requires
        doc.valid(),
    ensures
        doc.set(page, properties).valid(),
{
}

/// An insertion keeps a document valid.
pub proof fn law_insert_keeps_valid(doc: DocumentPages, index: int, count: int)
    requires
        doc.valid(),
        0 <= count,
    ensures
        doc.insert(index, count).valid(),
{
}

/// A deletion keeps a document valid.
pub proof fn law_delete_keeps_valid(doc: DocumentPages, index: int, count: int)
    requires
        doc.valid(),
        0 <= count,
    ensures
        doc.delete(index, count).valid(),
{
    let after = doc.delete(index, count);
    assert forall|p: FPDF_PAGE| #[trigger] after.properties.contains_key(p) implies (
    after.maximum matches Some(m) && after.properties[p].index <= m) by {
        assert(doc.properties.contains_key(p));
    }
}

// Reads and writes.

/// What is cached for a page is read back, for the page and for its index position, and the page
/// is on record nowhere else. What is cached for other pages stays, and so does what is on record
/// of them at other positions.
pub proof fn law_set_is_read_back(doc: DocumentPages, page: FPDF_PAGE, properties: PageProperties)
    requires
        doc.valid(),
    ensures
        doc.set(page, properties).properties.get(page) == Some(properties),
        doc.set(page, properties).page_at.get(properties.index) == Some(page),
        forall|i: int|
            i != properties.index ==> #[trigger] doc.set(page, properties).page_at.get(i) != Some(
                page,
            ),
        forall|p: FPDF_PAGE|
            p != page ==> doc.set(page, properties).properties.get(p)
                == #[trigger] doc.properties.get(p),
        forall|i: int|
            i != properties.index && doc.page_at.get(i) != Some(page) ==> doc.set(
                page,
                properties,
            ).page_at.get(i) == #[trigger] doc.page_at.get(i),
{
}

/// Caching a page changes the answers of no other page. It changes those of two index positions at
/// most: that of the page answers with the page, and the one where the page was cached before, if
/// it answered with the page, answers with nothing.
pub proof fn law_set_changes_two_positions(
    doc: DocumentPages,
    page: FPDF_PAGE,
    properties: PageProperties,
    other: FPDF_PAGE,
    i: int,
)
    ensures
        doc.set(page, properties).properties.get(other) == (if other == page {
            Some(properties)
        } else {
            doc.properties.get(other)
        }),
        doc.set(page, properties).page_at.get(i) == (if i == properties.index {
            Some(page)
        } else if doc.page_at.get(i) == Some(page) && doc.properties.contains_key(page)
            && doc.properties[page].index == i {
            None
        } else {
            doc.page_at.get(i)
        }),
{
}

/// Of several properties that are cached for one page, the last are read. At one index position
/// the earlier ones leave no trace at all.
pub proof fn law_set_overwrites(
    doc: DocumentPages,
    page: FPDF_PAGE,
    first: PageProperties,
    second: PageProperties,
)
    ensures
        doc.set(page, first).set(page, second).properties == doc.set(page, second).properties,
        first.index == second.index ==> doc.set(page, first).set(page, second) == doc.set(
            page,
            second,
        ),
{
    let twice = doc.set(page, first).set(page, second);
    let once = doc.set(page, second);
    assert(twice.properties =~= once.properties);
    if first.index == second.index {
        assert(twice =~= once);
    }
}

/// The order in which two pages are cached at different index positions does not matter.
pub proof fn law_sets_commute(
    doc: DocumentPages,
    page: FPDF_PAGE,
    properties: PageProperties,
    other: FPDF_PAGE,
    other_properties: PageProperties,
)
    requires
        doc.valid(),
        page != other,
        properties.index != other_properties.index,
    ensures
        doc.set(page, properties).set(other, other_properties) == doc.set(
            other,
            other_properties,
        ).set(page, properties),
{
    let one = doc.set(page, properties).set(other, other_properties);
    let two = doc.set(other, other_properties).set(page, properties);
    assert(one.properties =~= two.properties);
    assert(one.page_at =~= two.page_at);
}

/// A page that was removed is no longer cached, and on record nowhere. What is cached and on record
/// of other pages stays.
pub proof fn law_remove_forgets(doc: DocumentPages, page: FPDF_PAGE)
    requires
        doc.valid(),
    ensures
        !doc.remove(page).properties.contains_key(page),
        forall|i: int| #[trigger] doc.remove(page).page_at.get(i) != Some(page),
        forall|p: FPDF_PAGE|
            p != page ==> doc.remove(page).properties.get(p) == #[trigger] doc.properties.get(p),
        forall|i: int|
            doc.page_at.get(i) != Some(page) ==> doc.remove(page).page_at.get(i)
                == #[trigger] doc.page_at.get(i),
{
}

/// Removing a page changes the answer of no other page. It changes that of one index position at
/// most: the one where the page was cached, if it answered with the page, answers with nothing.
pub proof fn law_remove_changes_one_position(
    doc: DocumentPages,
    page: FPDF_PAGE,
    other: FPDF_PAGE,
    i: int,
)
    ensures
        doc.remove(page).properties.get(other) == (if other == page {
            None
        } else {
            doc.properties.get(other)
        }),
        doc.remove(page).page_at.get(i) == (if doc.page_at.get(i) == Some(page)
            && doc.properties.contains_key(page) && doc.properties[page].index == i {
            None
        } else {
            doc.page_at.get(i)
        }),
{
}

/// A page that is not cached stays so until it is cached: no removal, insertion or deletion brings
/// a page back, and no insertion loses one.
pub proof fn law_only_set_caches(
    doc: DocumentPages,
    page: FPDF_PAGE,
    removed: FPDF_PAGE,
    index: int,
    count: int,
)
    ensures
        doc.remove(removed).properties.contains_key(page) ==> doc.properties.contains_key(page),
        doc.insert(index, count).properties.contains_key(page) <==> doc.properties.contains_key(
            page,
        ),
        doc.delete(index, count).properties.contains_key(page) ==> doc.properties.contains_key(
            page,
        ),
{
}

/// Removing a page that is not cached, a second time for one, changes nothing.
pub proof fn law_remove_is_idempotent(doc: DocumentPages, page: FPDF_PAGE)
    ensures
        !doc.properties.contains_key(page) ==> doc.remove(page) == doc,
        doc.remove(page).remove(page) == doc.remove(page),
{
}

/// Removing a page just after it was cached, where it was not and nothing was on record at its
/// index position, restores what is cached and on record; of a tight document, the maximum too.
pub proof fn law_remove_undoes_set(
    doc: DocumentPages,
    page: FPDF_PAGE,
    properties: PageProperties,
)
    requires
        doc.valid(),
        !doc.properties.contains_key(page),
        !doc.page_at.contains_key(properties.index),
    ensures
        doc.set(page, properties).remove(page).properties == doc.properties,
        doc.set(page, properties).remove(page).page_at == doc.page_at,
        doc.tight() ==> doc.set(page, properties).remove(page) == doc,
{
    let set = doc.set(page, properties);
    let after = set.remove(page);
    assert(after.properties =~= doc.properties);
    assert(after.page_at =~= doc.page_at);
    law_set_keeps_valid(doc, page, properties);
    lemma_greatest_after_remove(set, page);
    if doc.tight() {
        assert(doc.maximum is None ==> forall|m: int| !is_greatest(doc.properties, m));
        assert(after.maximum == doc.maximum);
    }
}

// Insertions and deletions.

/// An insertion moves each page at `index` or behind, of any number at one position, `count`
/// positions towards the end. Other pages keep their positions, all keep their strategies, and
/// the records follow their pages.
pub proof fn law_insert_moves_pages(doc: DocumentPages, index: int, count: int)
    requires
        doc.valid(),
        0 <= count,
    ensures
        forall|p: FPDF_PAGE| #[trigger]
            doc.properties.contains_key(p) ==> doc.insert(index, count).properties.get(p) == Some(
                PageProperties {
                    index: if doc.properties[p].index >= index {
                        doc.properties[p].index + count
                    } else {
                        doc.properties[p].index
                    },
                    ..doc.properties[p]
                },
            ),
        forall|i: int|
            doc.insert(index, count).page_at.get(
                if i >= index {
                    i + count
                } else {
                    i
                },
            ) == #[trigger] doc.page_at.get(i),
{
}

/// A deletion forgets each page at `index..index + count`, and moves each page behind, of any
/// number at one position, `count` positions towards the start. Other pages keep their positions,
/// all that are left keep their strategies, and the records follow their pages.
pub proof fn law_delete_moves_pages(doc: DocumentPages, index: int, count: int)
    requires
        doc.valid(),
        0 <= count,
    ensures
        forall|p: FPDF_PAGE| #[trigger]
            doc.properties.contains_key(p) ==> doc.delete(index, count).properties.get(p) == (
            if doc.properties[p].index < index {
                Some(doc.properties[p])
            } else if doc.properties[p].index < index + count {
                None
            } else {
                Some(
                    PageProperties {
                        index: doc.properties[p].index - count,
                        ..doc.properties[p]
                    },
                )
            }),
        forall|i: int| #[trigger]
            doc.delete(index, count).page_at.get(i) == doc.page_at.get(
                if i >= index {
                    i + count
                } else {
                    i
                },
            ),
{
}

/// After an insertion each page answers as before, but for an index position that is `count`
/// greater where it was `index` or greater. Each index position in front of `index` answers as
/// before, each from `index + count` on as the one `count` in front of it did, and those in between
/// with nothing.
pub proof fn law_insert_answers(
    doc: DocumentPages,
    index: int,
    count: int,
    page: FPDF_PAGE,
    i: int,
)
    requires
        0 <= count,
    ensures
        doc.insert(index, count).properties.get(page) == (match doc.properties.get(page) {
            Some(e) if e.index < index => Some(e),
            Some(e) => Some(PageProperties { index: e.index + count, ..e }),
            None => None,
        }),
        doc.insert(index, count).page_at.get(i) == (if i < index {
            doc.page_at.get(i)
        } else if i < index + count {
            None
        } else {
            doc.page_at.get(i - count)
        }),
{
}

/// After a deletion each page in front of the deleted positions answers as before, each at one of
/// them with nothing, and each behind them with an index position that is `count` less. Each index
/// position in front of `index` answers as before, and each other as the one `count` behind it did.
pub proof fn law_delete_answers(
    doc: DocumentPages,
    index: int,
    count: int,
    page: FPDF_PAGE,
    i: int,
)
    requires
        0 <= count,
    ensures
        doc.delete(index, count).properties.get(page) == (match doc.properties.get(page) {
            Some(e) if e.index < index => Some(e),
            Some(e) if e.index < index + count => None,
            Some(e) => Some(PageProperties { index: e.index - count, ..e }),
            None => None,
        }),
        doc.delete(index, count).page_at.get(i) == (if i < index {
            doc.page_at.get(i)
        } else {
            doc.page_at.get(i + count)
        }),
{
}

/// An insertion leaves nothing cached, and nothing on record, at `index..index + count`.
pub proof fn law_insert_opens_gap(doc: DocumentPages, index: int, count: int, i: int)
    requires
        doc.valid(),
        index <= i < index + count,
    ensures
        !doc.insert(index, count).occupied(i),
        !doc.insert(index, count).page_at.contains_key(i),
{
}

/// After pages are inserted and a new one of them is cached, both the new page and the pages that
/// moved are read back at their positions, and the new page is the only one at its own.
pub proof fn law_insert_then_cache(
    doc: DocumentPages,
    index: int,
    count: int,
    page: FPDF_PAGE,
    properties: PageProperties,
)
    requires
        doc.valid(),
        index <= properties.index < index + count,
        !doc.properties.contains_key(page),
    ensures
        doc.insert(index, count).set(page, properties).properties.get(page) == Some(properties),
        doc.insert(index, count).set(page, properties).page_at.get(properties.index) == Some(page),
        forall|p: FPDF_PAGE| #[trigger]
            doc.properties.contains_key(p) ==> doc.insert(index, count).set(
                page,
                properties,
            ).properties.get(p) == Some(
                PageProperties {
                    index: if doc.properties[p].index >= index {
                        doc.properties[p].index + count
                    } else {
                        doc.properties[p].index
                    },
                    ..doc.properties[p]
                },
            ),
        forall|p: FPDF_PAGE| #[trigger]
            doc.insert(index, count).set(page, properties).properties.contains_key(p) && doc.insert(
                index,
                count,
            ).set(page, properties).properties[p].index == properties.index ==> p == page,
{
}

/// Two insertions at one position amount to one of all their pages.
pub proof fn law_insertions_add_up(doc: DocumentPages, index: int, first: int, second: int)
    requires
        0 <= first,
        0 <= second,
    ensures
        doc.insert(index, first).insert(index, second) == doc.insert(index, first + second),
{
    let twice = doc.insert(index, first).insert(index, second);
    let once = doc.insert(index, first + second);
    assert(twice.properties =~= once.properties);
    assert(twice.page_at =~= once.page_at);
}

/// A deletion of the pages that were just inserted restores what is cached and on record. The
/// maximum of a document of which something is cached is restored just where nothing was inserted,
/// or the insertion was not farther away than right behind it.
pub proof fn law_delete_undoes_insert(doc: DocumentPages, index: int, count: int)
    requires
        doc.valid(),
        0 <= count,
    ensures
        doc.insert(index, count).delete(index, count).properties == doc.properties,
        doc.insert(index, count).delete(index, count).page_at == doc.page_at,
        !any_cached(doc.properties) ==> doc.insert(
            index,
            count,
        ).delete(index, count).maximum is None,
        any_cached(doc.properties) ==> (doc.insert(
            index,
            count,
        ).delete(index, count) == doc <==> (count == 0 || index <= doc.maximum.unwrap() + 1)),
{
    let after = doc.insert(index, count).delete(index, count);
    assert(after.properties =~= doc.properties);
    assert(after.page_at =~= doc.page_at);
    if any_cached(doc.properties) {
        assert(exists|p: FPDF_PAGE| #[trigger] doc.properties.contains_key(p)) by {
            if forall|p: FPDF_PAGE| !#[trigger] doc.properties.contains_key(p) {
                assert(doc.properties =~= Map::empty());
            }
        }
    }
}

/// Two deletions at one position amount to one of all their pages.
pub proof fn law_deletions_add_up(doc: DocumentPages, index: int, first: int, second: int)
    requires
        doc.valid(),
        0 <= first,
        0 <= second,
    ensures
        doc.delete(index, first).delete(index, second) == doc.delete(index, first + second),
{
    let twice = doc.delete(index, first).delete(index, second);
    let once = doc.delete(index, first + second);
    assert(twice.properties =~= once.properties);
    assert(twice.page_at =~= once.page_at);
    if !any_cached(doc.delete(index, first).properties) {
        assert(twice.properties =~= Map::empty());
    }
}

// Machine limits.

/// An insertion is accepted just where `count` is not negative and no index position overflows:
/// that of the new maximum where there is a maximum, and those of the end of the inserted range and
/// of its last page where there is none.
pub proof fn law_insert_is_accepted(doc: DocumentPages, index: int, count: int)
    ensures
        doc.maximum is Some ==> (doc.insert_fits(index, count) <==> 0 <= count && i32::MIN
            <= doc.maximum.unwrap() + count <= i32::MAX),
        doc.maximum is None ==> (doc.insert_fits(index, count) <==> 0 <= count && i32::MIN <= index
            + count - 1 && index + count <= i32::MAX),
{
}

/// An insertion of one page is accepted at any index position, zero included, while the maximum is
/// not the greatest index, and at any but the greatest one while there is no maximum.
pub proof fn law_insert_of_one_page_is_accepted(doc: DocumentPages, index: int)
    requires
        0 <= index <= i32::MAX,
        doc.maximum is Some ==> i32::MIN <= doc.maximum.unwrap() < i32::MAX,
        doc.maximum is None ==> index < i32::MAX,
    ensures
        doc.insert_fits(index, 1),
{
}

/// A deletion is accepted just where `count` is not negative and the end of the deleted range does
/// not overflow.
pub proof fn law_delete_is_accepted(index: int, count: int)
    ensures
        delete_fits(index, count) <==> 0 <= count && i32::MIN <= index + count <= i32::MAX,
{
}

/// A deletion of one page is accepted at any index position but the greatest one.
pub proof fn law_delete_of_one_page_is_accepted(index: int)
    requires
        0 <= index < i32::MAX,
    ensures
        delete_fits(index, 1),
{
}

// The maximum.

/// Removing a cached page leaves the maximum as it is while some other page is cached and the page
/// was not at the maximum. Where no other page is cached, there is no maximum afterwards. Removing
/// a page that is not cached leaves the maximum as it is.
pub proof fn law_remove_keeps_maximum(doc: DocumentPages, page: FPDF_PAGE, other: FPDF_PAGE)
    ensures
        !doc.properties.contains_key(page) ==> doc.remove(page).maximum == doc.maximum,
        doc.properties.contains_key(page) && other != page && doc.properties.contains_key(other)
            && doc.maximum != Some(doc.properties[page].index) ==> doc.remove(page).maximum
            == doc.maximum,
        doc.properties.contains_key(page) && (forall|p: FPDF_PAGE| #[trigger]
            doc.properties.contains_key(p) ==> p == page) ==> doc.remove(page).maximum is None,
{
    let left = doc.properties.remove(page);
    if other != page && doc.properties.contains_key(other) {
        assert(left.contains_key(other));
    }
}

/// Removing a page at the maximum while some other page is cached makes the maximum that of the
/// other pages: one of them is there, and none behind.
pub proof fn law_remove_lowers_maximum(doc: DocumentPages, page: FPDF_PAGE, other: FPDF_PAGE)
    requires
        doc.valid(),
        doc.properties.contains_key(page),
        doc.maximum == Some(doc.properties[page].index),
        other != page,
        doc.properties.contains_key(other),
    ensures
        doc.remove(page).maximum is Some,
        doc.properties[other].index <= doc.remove(page).maximum.unwrap(),
        exists|p: FPDF_PAGE|
            p != page && #[trigger] doc.properties.contains_key(p) && doc.properties[p].index
                == doc.remove(page).maximum.unwrap(),
{
    lemma_greatest_after_remove(doc, page);
    let left = doc.properties.remove(page);
    assert(left.contains_key(other));
    let m = doc.remove(page).maximum.unwrap();
    let p = choose|p: FPDF_PAGE| #[trigger] left.contains_key(p) && left[p].index == m;
    assert(doc.properties.contains_key(p) && p != page);
}

/// An insertion makes the maximum `count` greater; where there was none, that of the last inserted
/// page.
pub proof fn law_insert_raises_maximum(doc: DocumentPages, index: int, count: int)
    ensures
        doc.maximum is Some ==> doc.insert(index, count).maximum == Some(
            doc.maximum.unwrap() + count,
        ),
        doc.maximum is None ==> doc.insert(index, count).maximum == Some(index + count - 1),
{
}

/// A deletion that leaves some page cached lowers the maximum by one for each deleted position up
/// to it: by none where they all lie behind it, by `count` where none does, and to just in front of
/// `index` where it lies among them. A deletion that leaves no page cached leaves no maximum.
pub proof fn law_delete_moves_maximum(doc: DocumentPages, index: int, count: int, left: FPDF_PAGE)
    requires
        0 <= count,
    ensures
        doc.maximum is None ==> doc.delete(index, count).maximum is None,
        (forall|p: FPDF_PAGE| #[trigger]
            doc.properties.contains_key(p) ==> index <= doc.properties[p].index < index + count)
            ==> doc.delete(index, count).maximum is None,
        doc.maximum is Some && doc.properties.contains_key(left) && !(index
            <= doc.properties[left].index < index + count) ==> {
            let m = doc.maximum.unwrap();
            &&& m < index ==> doc.delete(index, count).maximum == Some(m)
            &&& index <= m < index + count ==> doc.delete(index, count).maximum == Some(index - 1)
            &&& index + count <= m ==> doc.delete(index, count).maximum == Some(m - count)
        },
{
    if doc.properties.contains_key(left) && !(index <= doc.properties[left].index < index + count) {
        assert(doc.delete(index, count).properties.contains_key(left));
    }
}

/// Once no page of a document is left, its maximum is gone, whether the last page was removed or
/// deleted.
pub proof fn law_last_page_clears_maximum(
    doc: DocumentPages,
    page: FPDF_PAGE,
    index: int,
    count: int,
)
    requires
        doc.valid(),
    ensures
        doc.properties.contains_key(page) && !any_cached(doc.remove(page).properties)
            ==> doc.remove(page).maximum is None,
        !any_cached(doc.delete(index, count).properties)
            ==> doc.delete(index, count).maximum is None,
{
    if doc.properties.contains_key(page) {
        lemma_greatest_after_remove(doc, page);
    }
}

/// After a deletion there is a maximum just where a page is left. It is at least the index position
/// of each page, and `count` less than before where each deleted position was at most the maximum.
pub proof fn law_delete_lowers_maximum(doc: DocumentPages, index: int, count: int)
    requires
        doc.valid(),
        0 <= count,
    ensures
        doc.delete(index, count).maximum is None <==> !any_cached(
            doc.delete(index, count).properties,
        ),
        doc.delete(index, count).bounded(),
        doc.delete(index, count).maximum matches Some(n) ==> (doc.maximum matches Some(m) && (index
            <= m && index + count <= m + 1 ==> n == m - count)),
{
    law_delete_keeps_valid(doc, index, count);
    let left = doc.delete(index, count).properties;
    if any_cached(left) {
        assert(exists|p: FPDF_PAGE| #[trigger] left.contains_key(p)) by {
            if forall|p: FPDF_PAGE| !#[trigger] left.contains_key(p) {
                assert(left =~= Map::empty());
            }
        }
    }
}

/// Caching a page makes the maximum the greater of what it was and the index position of the page,
/// so it never lowers it.
pub proof fn law_set_raises_maximum(
    doc: DocumentPages,
    page: FPDF_PAGE,
    properties: PageProperties,
)
    ensures
        doc.set(page, properties).maximum == Some(
            match doc.maximum {
                Some(m) if m >= properties.index => m,
                _ => properties.index,
            },
        ),
{
}

/// Removing pages keeps the maximum of a document tight. So does caching a page, unless it is
/// cached in front of the maximum and no other page is left there.
pub proof fn law_maximum_stays_tight(
    doc: DocumentPages,
    page: FPDF_PAGE,
    properties: PageProperties,
)
    requires
        doc.valid(),
        doc.tight(),
    ensures
        DocumentPages::empty().tight(),
        doc.remove(page).tight(),
        doc.set(page, properties).tight() <==> (doc.maximum matches Some(m) ==> properties.index
            >= m || doc.remove(page).occupied(m)),
{
    let removed = doc.remove(page);
    if doc.properties.contains_key(page) {
        lemma_greatest_after_remove(doc, page);
        if let Some(m) = doc.maximum {
            if doc.properties[page].index != m {
                let p = choose|p: FPDF_PAGE| #[trigger]
                    doc.properties.contains_key(p) && doc.properties[p].index == m;
                assert(removed.properties.contains_key(p));
                assert(is_greatest(removed.properties, m));
            }
        }
    }
    let set = doc.set(page, properties);
    assert(set.properties.contains_key(page) && set.properties[page] == properties);
    assert(forall|q: FPDF_PAGE| #[trigger]
        set.properties.contains_key(q) ==> q == page || removed.properties.contains_key(q));
    assert(forall|q: FPDF_PAGE| #[trigger]
        removed.properties.contains_key(q) ==> set.properties.contains_key(q)
            && doc.properties.contains_key(q));
}

/// An insertion keeps the maximum of a document tight just where a page is cached and the insertion
/// is not behind the maximum or inserts nothing. A deletion keeps it tight just where nothing is
/// left, the maximum is not deleted, or a page is cached right in front of the deleted ones.
pub proof fn law_shifts_keep_maximum_tight(doc: DocumentPages, index: int, count: int)
    requires
        doc.valid(),
        doc.tight(),
        0 <= count,
    ensures
        doc.insert(index, count).tight() <==> (doc.maximum matches Some(m) && (index <= m || count
            == 0)),
        doc.delete(index, count).tight() <==> {
            ||| !any_cached(doc.delete(index, count).properties)
            ||| doc.maximum matches Some(m) && (index > m || index + count <= m)
            ||| doc.occupied(index - 1)
        },
{
    let inserted = doc.insert(index, count);
    let deleted = doc.delete(index, count);
    law_insert_keeps_valid(doc, index, count);
    law_delete_lowers_maximum(doc, index, count);
    if let Some(m) = doc.maximum {
        let p = choose|p: FPDF_PAGE| #[trigger]
            doc.properties.contains_key(p) && doc.properties[p].index == m;
        assert(inserted.properties.contains_key(p));
        assert(forall|q: FPDF_PAGE| #[trigger]
            inserted.properties.contains_key(q) ==> doc.properties.contains_key(q));
        if index > m || index + count <= m {
            assert(deleted.properties.contains_key(p));
        }
        assert(forall|q: FPDF_PAGE| #[trigger]
            deleted.properties.contains_key(q) ==> doc.properties.contains_key(q));
        assert(forall|q: FPDF_PAGE| #[trigger]
            doc.properties.contains_key(q) && doc.properties[q].index == index - 1
                ==> deleted.properties.contains_key(q));
    }
}

/// Inserting one page right behind the maximum, or into a document of which nothing is cached, and
/// caching it keeps the maximum tight.
pub proof fn law_append_keeps_maximum_tight(
    doc: DocumentPages,
    page: FPDF_PAGE,
    properties: PageProperties,
)
    requires
        doc.valid(),
        doc.tight(),
        !doc.properties.contains_key(page),
        doc.maximum is None || doc.maximum == Some(properties.index - 1),
    ensures
        doc.insert(properties.index, 1).set(page, properties).tight(),
        doc.insert(properties.index, 1).set(page, properties).maximum == Some(properties.index),
{
    let after = doc.insert(properties.index, 1).set(page, properties);
    assert(after.properties.contains_key(page) && after.properties[page] == properties);
    assert(forall|q: FPDF_PAGE| #[trigger]
        after.properties.contains_key(q) ==> q == page || doc.properties.contains_key(q));
}

/// A deletion of the page at the maximum leaves all other pages where they are, and lowers the
/// maximum by one; where no page is left, the maximum is gone.
pub proof fn law_delete_last(doc: DocumentPages, last: int)
    requires
        doc.valid(),
        doc.maximum == Some(last),
    ensures
        forall|p: FPDF_PAGE| #[trigger]
            doc.properties.contains_key(p) ==> doc.delete(last, 1).properties.get(p) == (
            if doc.properties[p].index == last {
                None
            } else {
                Some(doc.properties[p])
            }),
        doc.delete(last, 1).page_at == doc.page_at.remove(last),
        doc.delete(last, 1).maximum == (if !any_cached(doc.delete(last, 1).properties) {
            None
        } else {
            Some(last - 1)
        }),
{
    assert(doc.delete(last, 1).page_at =~= doc.page_at.remove(last));
}

/// The document after the deletion of the pages at `last`, `last - 1`, and so on down to zero, one
/// at a time.
pub open spec fn delete_from_last(doc: DocumentPages, last: int) -> DocumentPages
    decreases last + 1,
{
    if last >= 0 {
        delete_from_last(doc.delete(last, 1), last - 1)
    } else {
        doc
    }
}

/// Deleting all pages of a document one at a time, the last first, leaves nothing cached.
pub proof fn law_delete_all(doc: DocumentPages, last: int)
    requires
        doc.valid(),
        doc.zero_based(),
        forall|p: FPDF_PAGE| #[trigger]
            doc.properties.contains_key(p) ==> doc.properties[p].index <= last,
        0 <= last,
    ensures
        delete_from_last(doc, last) == DocumentPages::empty(),
    decreases last,
{
    let after = doc.delete(last, 1);
    law_delete_keeps_valid(doc, last, 1);
    assert forall|p: FPDF_PAGE| #[trigger] after.properties.contains_key(p) implies 0
        <= after.properties[p].index <= last - 1 by {
        assert(doc.properties.contains_key(p));
    }
    if last > 0 {
        law_delete_all(after, last - 1);
    } else {
        assert(after.properties =~= Map::empty());
        assert(after.page_at =~= Map::empty());
        assert(delete_from_last(after, -1) == after);
    }
}

// Documents in which no two pages share an index position.

/// Caching a page leaves each cached page on record just where no other page is on record at its
/// index position.
pub proof fn law_set_keeps_linked(doc: DocumentPages, page: FPDF_PAGE, properties: PageProperties)
    requires
        doc.valid(),
        doc.linked(),
    ensures
        DocumentPages::empty().linked(),
        doc.set(page, properties).linked() <==> (doc.page_at.contains_key(properties.index)
            ==> doc.page_at[properties.index] == page),
{
    let after = doc.set(page, properties);
    if doc.page_at.contains_key(properties.index) {
        assert(doc.properties.contains_key(doc.page_at[properties.index]));
        assert(after.properties.contains_key(doc.page_at[properties.index]));
    }
    assert forall|p: FPDF_PAGE| #[trigger]
        after.properties.contains_key(p) && p != page implies doc.properties.contains_key(p) by {}
}

/// Removals, insertions and deletions leave each page that is left on record.
pub proof fn law_calls_keep_linked(doc: DocumentPages, page: FPDF_PAGE, index: int, count: int)
    requires
        doc.valid(),
        doc.linked(),
        0 <= count,
    ensures
        doc.remove(page).linked(),
        doc.insert(index, count).linked(),
        doc.delete(index, count).linked(),
{
    assert forall|p: FPDF_PAGE| #[trigger]
        doc.insert(index, count).properties.contains_key(p) implies doc.properties.contains_key(
        p,
    ) by {}
    assert forall|p: FPDF_PAGE| #[trigger]
        doc.delete(index, count).properties.contains_key(p) implies doc.properties.contains_key(
        p,
    ) by {}
}

/// No call makes an index position negative, but for the caching of a page at a negative one.
pub proof fn law_stays_zero_based(
    doc: DocumentPages,
    index: int,
    count: int,
    page: FPDF_PAGE,
    properties: PageProperties,
)
    requires
        doc.zero_based(),
        0 <= index,
        0 <= count,
    ensures
        doc.set(page, properties).zero_based() <==> 0 <= properties.index,
        doc.remove(page).zero_based(),
        doc.insert(index, count).zero_based(),
        doc.delete(index, count).zero_based(),
{
    let set = doc.set(page, properties);
    assert(set.properties.contains_key(page) && set.properties[page] == properties);
    assert forall|p: FPDF_PAGE| #[trigger]
        set.properties.contains_key(p) && p != page implies doc.properties.contains_key(p) by {}
    assert forall|p: FPDF_PAGE| #[trigger]
        doc.insert(index, count).properties.contains_key(p) implies doc.properties.contains_key(
        p,
    ) by {}
    assert forall|p: FPDF_PAGE| #[trigger]
        doc.delete(index, count).properties.contains_key(p) implies doc.properties.contains_key(
        p,
    ) by {}
}

// Counts.

/// Caching a page that was not cached adds one to the number of cached pages, and removing a cached
/// page takes one away.
pub proof fn law_set_and_remove_count(
    doc: DocumentPages,
    page: FPDF_PAGE,
    properties: PageProperties,
)
    requires
        doc.properties.dom().finite(),
    ensures
        doc.set(page, properties).properties.len() == (if doc.properties.contains_key(page) {
            doc.properties.len()
        } else {
            doc.properties.len() + 1
        }),
        doc.remove(page).properties.len() == (if doc.properties.contains_key(page) {
            doc.properties.len() - 1
        } else {
            doc.properties.len() as int
        }),
{
    assert(doc.set(page, properties).properties.dom() =~= doc.properties.dom().insert(page));
}

/// An insertion keeps the number of cached pages.
pub proof fn law_insert_keeps_count(doc: DocumentPages, index: int, count: int)
    ensures
        doc.insert(index, count).properties.len() == doc.properties.len(),
{
    assert(doc.insert(index, count).properties.dom() =~= doc.properties.dom());
}

/// A deletion takes away just the pages that were cached at the deleted positions.
pub proof fn law_delete_counts(doc: DocumentPages, index: int, count: int)
    requires
        doc.properties.dom().finite(),
    ensures
        doc.delete(index, count).properties.len() == doc.properties.len()
            - doc.properties.dom().filter(
            |p: FPDF_PAGE| index <= doc.properties[p].index < index + count,
        ).len(),
{
    let gone = doc.properties.dom().filter(
        |p: FPDF_PAGE| index <= doc.properties[p].index < index + count,
    );
    let left = doc.delete(index, count).properties.dom();
    assert(left =~= doc.properties.dom().difference(gone));
    vstd::set_lib::lemma_set_disjoint_lens(left, gone);
    assert(left + gone =~= doc.properties.dom());
}

// Documents.

/// A change to one document leaves every other document as it was, and changes to two documents
/// do not depend on their order.
pub proof fn law_documents_are_isolated(
    cache: Map<FPDF_DOCUMENT, DocumentPages>,
    document: FPDF_DOCUMENT,
    other: FPDF_DOCUMENT,
    after: DocumentPages,
    other_after: DocumentPages,
)
    requires
        document != other,
    ensures
        cache.insert(document, after)[other] == cache[other],
        cache.insert(document, after).insert(other, other_after) == cache.insert(
            other,
            other_after,
        ).insert(document, after),
{
    assert(cache.insert(document, after).insert(other, other_after) =~= cache.insert(
        other,
        other_after,
    ).insert(document, after));
}

} // verus!
