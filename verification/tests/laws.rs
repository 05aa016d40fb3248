use page_index_cache::cache::{PdfPageCachedProperties, PdfPageIndexCache};
use page_index_cache::handles::{
    PdfPageContentRegenerationStrategy, PdfPageIndex, FPDF_DOCUMENT, FPDF_PAGE,
};

const DOCUMENT: FPDF_DOCUMENT = 0x1000;
const OTHER_DOCUMENT: FPDF_DOCUMENT = 0x2000;

const MANUAL: PdfPageContentRegenerationStrategy = PdfPageContentRegenerationStrategy::Manual;
const ON_DROP: PdfPageContentRegenerationStrategy =
    PdfPageContentRegenerationStrategy::AutomaticOnDrop;

/// A cache that holds the given pages of one document, each at its index position.
fn cache_of(pages: &[(FPDF_PAGE, PdfPageIndex)]) -> PdfPageIndexCache {
    let mut cache = PdfPageIndexCache::new();

    for (page, index) in pages {
        cache.cache_props_for_page(DOCUMENT, *page, *index, MANUAL);
    }

    cache
}

fn index_of(cache: &PdfPageIndexCache, page: FPDF_PAGE) -> Option<PdfPageIndex> {
    cache.get_index_for_page(DOCUMENT, page)
}

#[test]
fn new_cache_is_empty() {
    let cache = PdfPageIndexCache::new();

    assert!(cache.get(DOCUMENT, 1).is_none());
    assert_eq!(cache.get_index_for_page(DOCUMENT, 1), None);
    assert_eq!(
        cache.get_content_regeneration_strategy_for_page(DOCUMENT, 1),
        None
    );
    assert_eq!(cache.page_for_index(DOCUMENT, 0), None);
    assert_eq!(cache.maximum_index_for_document(DOCUMENT), None);
    assert_eq!(cache.count_for_document(DOCUMENT), 0);
}

#[test]
fn set_is_read_back() {
    let mut cache = PdfPageIndexCache::new();
    let props = PdfPageCachedProperties {
        index: 4,
        content_regeneration_strategy: ON_DROP,
    };

    cache.set(DOCUMENT, 11, props);
    cache.cache_props_for_page(DOCUMENT, 12, 2, MANUAL);

    assert_eq!(cache.get(DOCUMENT, 11), Some(&props));
    assert_eq!(index_of(&cache, 11), Some(4));
    assert_eq!(
        cache.get_content_regeneration_strategy_for_page(DOCUMENT, 11),
        Some(ON_DROP)
    );
    assert_eq!(
        cache.get_content_regeneration_strategy_for_page(DOCUMENT, 12),
        Some(MANUAL)
    );
    assert_eq!(cache.page_for_index(DOCUMENT, 4), Some(11));
    assert_eq!(cache.page_for_index(DOCUMENT, 2), Some(12));
    assert_eq!(cache.page_for_index(DOCUMENT, 3), None);
    assert_eq!(cache.maximum_index_for_document(DOCUMENT), Some(4));
}

#[test]
fn set_overwrites() {
    let mut cache = cache_of(&[(11, 4)]);

    cache.cache_props_for_page(DOCUMENT, 11, 4, ON_DROP);

    assert_eq!(
        cache.get_content_regeneration_strategy_for_page(DOCUMENT, 11),
        Some(ON_DROP)
    );
    assert_eq!(cache.count_for_document(DOCUMENT), 1);
    assert_eq!(cache.maximum_index_for_document(DOCUMENT), Some(4));
}

#[test]
fn remove_returns_what_was_cached_once() {
    let mut cache = cache_of(&[(11, 4), (12, 2)]);

    assert_eq!(
        cache.remove(DOCUMENT, 11),
        Some(PdfPageCachedProperties {
            index: 4,
            content_regeneration_strategy: MANUAL,
        })
    );
    assert_eq!(cache.remove(DOCUMENT, 11), None);
    assert_eq!(index_of(&cache, 11), None);
    assert_eq!(index_of(&cache, 12), Some(2));
    assert_eq!(cache.page_for_index(DOCUMENT, 4), None);
    assert_eq!(cache.page_for_index(DOCUMENT, 2), Some(12));
}

#[test]
fn remove_lowers_the_maximum_to_the_greatest_index_left() {
    let mut cache = cache_of(&[(11, 4), (12, 2), (13, 9), (14, 0)]);

    cache.cache_props_for_page(OTHER_DOCUMENT, 21, 30, MANUAL);

    assert_eq!(cache.maximum_index_for_document(DOCUMENT), Some(9));

    cache.remove_index_for_page(DOCUMENT, 12);

    assert_eq!(cache.maximum_index_for_document(DOCUMENT), Some(9));

    cache.remove_index_for_page(DOCUMENT, 13);

    assert_eq!(cache.maximum_index_for_document(DOCUMENT), Some(4));

    cache.remove_index_for_page(DOCUMENT, 11);

    assert_eq!(cache.maximum_index_for_document(DOCUMENT), Some(0));

    cache.remove_index_for_page(DOCUMENT, 14);

    assert_eq!(cache.maximum_index_for_document(DOCUMENT), None);
    assert_eq!(cache.maximum_index_for_document(OTHER_DOCUMENT), Some(30));
}

#[test]
fn remove_undoes_set() {
    let mut cache = cache_of(&[(11, 0), (12, 1)]);

    cache.cache_props_for_page(DOCUMENT, 13, 7, MANUAL);
    cache.remove_index_for_page(DOCUMENT, 13);

    assert_eq!(cache.count_for_document(DOCUMENT), 2);
    assert_eq!(cache.page_for_index(DOCUMENT, 7), None);
    assert_eq!(cache.maximum_index_for_document(DOCUMENT), Some(1));
}

#[test]
fn insert_moves_pages_and_keeps_strategies() {
    let mut cache = cache_of(&[(11, 0), (12, 3), (14, 8)]);

    cache.cache_props_for_page(DOCUMENT, 13, 4, ON_DROP);
    cache.insert_pages_at_index(DOCUMENT, 3, 2);

    assert_eq!(index_of(&cache, 11), Some(0));
    assert_eq!(index_of(&cache, 12), Some(5));
    assert_eq!(index_of(&cache, 13), Some(6));
    assert_eq!(index_of(&cache, 14), Some(10));
    assert_eq!(cache.page_for_index(DOCUMENT, 3), None);
    assert_eq!(cache.page_for_index(DOCUMENT, 4), None);
    assert_eq!(cache.page_for_index(DOCUMENT, 5), Some(12));
    assert_eq!(cache.page_for_index(DOCUMENT, 8), None);
    assert_eq!(cache.page_for_index(DOCUMENT, 10), Some(14));
    assert_eq!(
        cache.get_content_regeneration_strategy_for_page(DOCUMENT, 13),
        Some(ON_DROP)
    );
    assert_eq!(cache.maximum_index_for_document(DOCUMENT), Some(10));
    assert_eq!(cache.count_for_document(DOCUMENT), 4);
}

#[test]
fn insert_behind_the_maximum_moves_nothing() {
    let mut cache = cache_of(&[(11, 0), (12, 1)]);

    cache.insert(DOCUMENT, 5, 3);

    assert_eq!(index_of(&cache, 11), Some(0));
    assert_eq!(index_of(&cache, 12), Some(1));
    assert_eq!(cache.maximum_index_for_document(DOCUMENT), Some(4));
}

#[test]
fn insert_into_an_unknown_document_records_its_maximum() {
    let mut cache = PdfPageIndexCache::new();

    cache.insert(DOCUMENT, 6, 2);

    assert_eq!(cache.maximum_index_for_document(DOCUMENT), Some(7));
    assert_eq!(cache.count_for_document(DOCUMENT), 0);

    cache.insert(OTHER_DOCUMENT, 0, 0);

    assert_eq!(cache.maximum_index_for_document(OTHER_DOCUMENT), Some(-1));
}

#[test]
fn insertions_add_up() {
    let mut twice = cache_of(&[(11, 0), (12, 3), (13, 4)]);
    let mut once = cache_of(&[(11, 0), (12, 3), (13, 4)]);

    twice.insert(DOCUMENT, 3, 2);
    twice.insert(DOCUMENT, 3, 4);
    once.insert(DOCUMENT, 3, 6);

    for page in [11, 12, 13] {
        assert_eq!(index_of(&twice, page), index_of(&once, page));
    }

    assert_eq!(index_of(&once, 13), Some(10));
    assert_eq!(twice.maximum_index_for_document(DOCUMENT), Some(10));
    assert_eq!(once.maximum_index_for_document(DOCUMENT), Some(10));
}

#[test]
fn delete_moves_pages_and_keeps_strategies() {
    let mut cache = cache_of(&[(11, 0), (12, 3), (13, 4), (14, 5), (16, 12)]);

    cache.cache_props_for_page(DOCUMENT, 15, 6, ON_DROP);
    cache.delete_pages_at_index(DOCUMENT, 3, 2);

    assert_eq!(index_of(&cache, 11), Some(0));
    assert_eq!(index_of(&cache, 12), None);
    assert_eq!(index_of(&cache, 13), None);
    assert_eq!(index_of(&cache, 14), Some(3));
    assert_eq!(index_of(&cache, 15), Some(4));
    assert_eq!(index_of(&cache, 16), Some(10));
    assert_eq!(cache.page_for_index(DOCUMENT, 3), Some(14));
    assert_eq!(cache.page_for_index(DOCUMENT, 5), None);
    assert_eq!(cache.page_for_index(DOCUMENT, 12), None);
    assert_eq!(
        cache.get_content_regeneration_strategy_for_page(DOCUMENT, 15),
        Some(ON_DROP)
    );
    assert_eq!(cache.maximum_index_for_document(DOCUMENT), Some(10));
    assert_eq!(cache.count_for_document(DOCUMENT), 4);
}

#[test]
fn delete_of_more_pages_than_the_maximum_clears_it() {
    let mut cache = cache_of(&[(11, 0), (12, 1), (13, 2)]);

    cache.delete(DOCUMENT, 0, 3);

    assert_eq!(cache.count_for_document(DOCUMENT), 0);
    assert_eq!(cache.maximum_index_for_document(DOCUMENT), None);
}

#[test]
fn delete_undoes_insert() {
    let mut cache = cache_of(&[(11, 0), (12, 3), (13, 4)]);

    cache.insert(DOCUMENT, 2, 5);

    assert_eq!(index_of(&cache, 12), Some(8));

    cache.delete(DOCUMENT, 2, 5);

    assert_eq!(index_of(&cache, 11), Some(0));
    assert_eq!(index_of(&cache, 12), Some(3));
    assert_eq!(index_of(&cache, 13), Some(4));
    assert_eq!(cache.page_for_index(DOCUMENT, 4), Some(13));
    assert_eq!(cache.page_for_index(DOCUMENT, 8), None);
    assert_eq!(cache.maximum_index_for_document(DOCUMENT), Some(4));
}

#[test]
fn appended_pages_keep_the_maximum() {
    let mut cache = PdfPageIndexCache::new();

    for index in 0..5 {
        cache.insert_pages_at_index(DOCUMENT, index, 1);
        cache.cache_props_for_page(DOCUMENT, 10 + index as FPDF_PAGE, index, MANUAL);

        assert_eq!(cache.maximum_index_for_document(DOCUMENT), Some(index));
        assert_eq!(cache.count_for_document(DOCUMENT), index as usize + 1);
    }
}

#[test]
fn insertions_and_deletions_of_nothing_change_nothing() {
    let mut cache = cache_of(&[(11, 0), (12, 3)]);

    cache.insert(DOCUMENT, 1, 0);
    cache.delete(DOCUMENT, 1, 0);

    assert_eq!(index_of(&cache, 11), Some(0));
    assert_eq!(index_of(&cache, 12), Some(3));
    assert_eq!(
        cache.get_content_regeneration_strategy_for_page(DOCUMENT, 12),
        Some(MANUAL)
    );
    assert_eq!(cache.maximum_index_for_document(DOCUMENT), Some(3));
}

#[test]
fn documents_are_isolated() {
    let mut cache = cache_of(&[(11, 0), (12, 1), (13, 2)]);

    // The same page handles, in another document.

    cache.cache_props_for_page(OTHER_DOCUMENT, 11, 5, ON_DROP);
    cache.cache_props_for_page(OTHER_DOCUMENT, 12, 6, ON_DROP);

    cache.insert_pages_at_index(DOCUMENT, 0, 4);
    cache.delete_pages_at_index(DOCUMENT, 5, 1);
    cache.remove_index_for_page(DOCUMENT, 11);

    assert_eq!(index_of(&cache, 11), None);
    assert_eq!(index_of(&cache, 12), None);
    assert_eq!(index_of(&cache, 13), Some(5));
    assert_eq!(cache.get_index_for_page(OTHER_DOCUMENT, 11), Some(5));
    assert_eq!(cache.get_index_for_page(OTHER_DOCUMENT, 12), Some(6));
    assert_eq!(cache.page_for_index(OTHER_DOCUMENT, 5), Some(11));
    assert_eq!(cache.page_for_index(OTHER_DOCUMENT, 6), Some(12));
    assert_eq!(cache.maximum_index_for_document(OTHER_DOCUMENT), Some(6));
    assert_eq!(cache.count_for_document(OTHER_DOCUMENT), 2);
}

#[test]
fn extreme_handles_and_positions_do_not_collide() {
    let handles = [0, 1, usize::MAX - 1, usize::MAX];
    let positions = [PdfPageIndex::MIN, -1, 0, PdfPageIndex::MAX];
    let mut cache = PdfPageIndexCache::new();

    for document in handles {
        for (page, index) in handles.iter().zip(positions.iter()) {
            cache.cache_props_for_page(document, *page, *index, MANUAL);
        }
    }

    for document in handles {
        assert_eq!(cache.count_for_document(document), 4);
        assert_eq!(
            cache.maximum_index_for_document(document),
            Some(PdfPageIndex::MAX)
        );

        for (page, index) in handles.iter().zip(positions.iter()) {
            assert_eq!(cache.get_index_for_page(document, *page), Some(*index));
            assert_eq!(cache.page_for_index(document, *index), Some(*page));
        }
    }

    cache.remove_index_for_page(usize::MAX, usize::MAX);

    assert_eq!(cache.maximum_index_for_document(usize::MAX), Some(0));
    assert_eq!(
        cache.maximum_index_for_document(0),
        Some(PdfPageIndex::MAX)
    );
}

#[test]
fn insert_at_the_maximum_moves_the_page_there() {
    let mut cache = cache_of(&[(11, 0), (12, 1)]);

    cache.insert(DOCUMENT, 1, 1);

    assert_eq!(index_of(&cache, 11), Some(0));
    assert_eq!(index_of(&cache, 12), Some(2));
    assert_eq!(cache.page_for_index(DOCUMENT, 1), None);
    assert_eq!(cache.page_for_index(DOCUMENT, 2), Some(12));
    assert_eq!(cache.maximum_index_for_document(DOCUMENT), Some(2));

    // The new page can now be cached at the position.

    cache.cache_props_for_page(DOCUMENT, 13, 1, MANUAL);

    assert_eq!(index_of(&cache, 13), Some(1));
    assert_eq!(index_of(&cache, 12), Some(2));
}

#[test]
fn insert_moves_every_handle_at_a_position() {
    let mut cache = cache_of(&[(11, 0), (12, 0), (13, 1)]);

    cache.insert(DOCUMENT, 0, 1);

    assert_eq!(index_of(&cache, 11), Some(1));
    assert_eq!(index_of(&cache, 12), Some(1));
    assert_eq!(index_of(&cache, 13), Some(2));
    assert_eq!(cache.page_for_index(DOCUMENT, 0), None);
    assert_eq!(cache.page_for_index(DOCUMENT, 1), Some(12));
    assert_eq!(cache.page_for_index(DOCUMENT, 2), Some(13));
    assert_eq!(cache.maximum_index_for_document(DOCUMENT), Some(2));
}

#[test]
fn delete_forgets_every_handle_at_a_position() {
    let mut cache = cache_of(&[(11, 0), (12, 0), (13, 1), (14, 1)]);

    cache.delete(DOCUMENT, 0, 1);

    assert_eq!(index_of(&cache, 11), None);
    assert_eq!(index_of(&cache, 12), None);
    assert_eq!(index_of(&cache, 13), Some(0));
    assert_eq!(index_of(&cache, 14), Some(0));
    assert_eq!(cache.page_for_index(DOCUMENT, 0), Some(14));
    assert_eq!(cache.page_for_index(DOCUMENT, 1), None);
    assert_eq!(cache.maximum_index_for_document(DOCUMENT), Some(0));
}

#[test]
fn remove_forgets_one_handle_at_a_position() {
    let mut cache = cache_of(&[(10, 0), (11, 1), (12, 1)]);

    assert_eq!(cache.page_for_index(DOCUMENT, 1), Some(12));

    cache.remove_index_for_page(DOCUMENT, 11);

    assert_eq!(index_of(&cache, 11), None);
    assert_eq!(index_of(&cache, 12), Some(1));
    assert_eq!(cache.page_for_index(DOCUMENT, 1), Some(12));
    assert_eq!(cache.maximum_index_for_document(DOCUMENT), Some(1));

    cache.cache_props_for_page(DOCUMENT, 13, 1, MANUAL);
    cache.remove_index_for_page(DOCUMENT, 13);

    assert_eq!(index_of(&cache, 12), Some(1));
    assert_eq!(cache.page_for_index(DOCUMENT, 1), None);
    assert_eq!(cache.maximum_index_for_document(DOCUMENT), Some(1));

    cache.remove_index_for_page(DOCUMENT, 12);

    assert_eq!(cache.maximum_index_for_document(DOCUMENT), Some(0));
}

#[test]
fn remove_of_the_last_page_clears_a_maximum_behind_it() {
    let mut cache = cache_of(&[(11, 0)]);

    cache.insert(DOCUMENT, 1, 5);

    assert_eq!(cache.maximum_index_for_document(DOCUMENT), Some(5));

    cache.remove_index_for_page(DOCUMENT, 11);

    assert_eq!(cache.maximum_index_for_document(DOCUMENT), None);
}

#[test]
fn delete_past_the_maximum_keeps_the_maximum_of_what_is_left() {
    let mut cache = cache_of(&[(10, 0), (11, 1), (13, 3)]);

    cache.delete(DOCUMENT, 2, 5);

    assert_eq!(index_of(&cache, 10), Some(0));
    assert_eq!(index_of(&cache, 11), Some(1));
    assert_eq!(index_of(&cache, 13), None);
    assert_eq!(cache.maximum_index_for_document(DOCUMENT), Some(1));

    cache.insert(DOCUMENT, 0, 1);

    assert_eq!(index_of(&cache, 10), Some(1));
    assert_eq!(index_of(&cache, 11), Some(2));
    assert_eq!(cache.maximum_index_for_document(DOCUMENT), Some(2));
}

#[test]
fn delete_behind_the_maximum_changes_nothing() {
    let mut cache = cache_of(&[(11, 0), (12, 1)]);

    cache.delete(DOCUMENT, 10, 1);

    assert_eq!(index_of(&cache, 11), Some(0));
    assert_eq!(index_of(&cache, 12), Some(1));
    assert_eq!(cache.maximum_index_for_document(DOCUMENT), Some(1));
}

#[test]
fn delete_that_leaves_nothing_clears_the_maximum() {
    let mut cache = cache_of(&[(15, 5)]);

    cache.delete(DOCUMENT, 5, 1);

    assert_eq!(cache.count_for_document(DOCUMENT), 0);
    assert_eq!(cache.maximum_index_for_document(DOCUMENT), None);

    cache.delete(OTHER_DOCUMENT, 5, 1);

    assert_eq!(cache.maximum_index_for_document(OTHER_DOCUMENT), None);
}

#[test]
fn delete_of_the_maximum_lowers_it_by_one() {
    let mut cache = cache_of(&[(11, 0), (12, 5)]);

    cache.delete(DOCUMENT, 5, 1);

    assert_eq!(index_of(&cache, 11), Some(0));
    assert_eq!(cache.maximum_index_for_document(DOCUMENT), Some(4));
}

#[test]
fn deletions_add_up() {
    let mut twice = cache_of(&[(11, 0), (12, 3), (13, 4), (14, 9)]);
    let mut once = cache_of(&[(11, 0), (12, 3), (13, 4), (14, 9)]);

    twice.delete(DOCUMENT, 2, 2);
    twice.delete(DOCUMENT, 2, 1);
    once.delete(DOCUMENT, 2, 3);

    for page in [11, 12, 13, 14] {
        assert_eq!(index_of(&twice, page), index_of(&once, page));
    }

    assert_eq!(index_of(&once, 13), None);
    assert_eq!(index_of(&once, 14), Some(6));
    assert_eq!(twice.maximum_index_for_document(DOCUMENT), Some(6));
    assert_eq!(once.maximum_index_for_document(DOCUMENT), Some(6));
}

#[test]
fn a_page_cached_at_a_second_position_leaves_the_first() {
    let mut cache = cache_of(&[(11, 5), (11, 2)]);

    assert_eq!(index_of(&cache, 11), Some(2));
    assert_eq!(cache.page_for_index(DOCUMENT, 5), None);
    assert_eq!(cache.page_for_index(DOCUMENT, 2), Some(11));
    assert_eq!(cache.maximum_index_for_document(DOCUMENT), Some(5));
    assert_eq!(cache.count_for_document(DOCUMENT), 1);

    cache.remove_index_for_page(DOCUMENT, 11);

    assert_eq!(cache.maximum_index_for_document(DOCUMENT), None);
}

#[test]
fn the_order_of_caching_does_not_matter() {
    let mut one = cache_of(&[(11, 5)]);
    let mut two = cache_of(&[(11, 5)]);

    one.insert(DOCUMENT, 6, 5);
    two.insert(DOCUMENT, 6, 5);

    one.cache_props_for_page(DOCUMENT, 11, 1, MANUAL);
    one.cache_props_for_page(DOCUMENT, 12, 7, MANUAL);
    two.cache_props_for_page(DOCUMENT, 12, 7, MANUAL);
    two.cache_props_for_page(DOCUMENT, 11, 1, MANUAL);

    for cache in [&one, &two] {
        assert_eq!(index_of(cache, 11), Some(1));
        assert_eq!(index_of(cache, 12), Some(7));
        assert_eq!(cache.page_for_index(DOCUMENT, 1), Some(11));
        assert_eq!(cache.page_for_index(DOCUMENT, 5), None);
        assert_eq!(cache.page_for_index(DOCUMENT, 7), Some(12));
        assert_eq!(cache.maximum_index_for_document(DOCUMENT), Some(10));
    }
}

#[test]
fn set_never_lowers_the_maximum() {
    let mut cache = cache_of(&[(11, 5)]);

    cache.cache_props_for_page(DOCUMENT, 12, 3, MANUAL);

    assert_eq!(cache.maximum_index_for_document(DOCUMENT), Some(5));

    cache.cache_props_for_page(DOCUMENT, 12, 8, MANUAL);

    assert_eq!(cache.maximum_index_for_document(DOCUMENT), Some(8));

    cache.cache_props_for_page(DOCUMENT, 12, 4, MANUAL);

    assert_eq!(cache.maximum_index_for_document(DOCUMENT), Some(8));
}

#[test]
fn a_removed_page_does_not_come_back() {
    let mut cache = cache_of(&[(11, 1), (11, 2), (12, 3)]);

    cache.remove_index_for_page(DOCUMENT, 11);
    cache.insert_pages_at_index(DOCUMENT, 0, 1);

    assert_eq!(index_of(&cache, 11), None);
    assert_eq!(cache.page_for_index(DOCUMENT, 2), None);
    assert_eq!(cache.page_for_index(DOCUMENT, 3), None);
    assert_eq!(index_of(&cache, 12), Some(4));
    assert_eq!(cache.maximum_index_for_document(DOCUMENT), Some(4));
}

#[test]
fn overflowing_insertions_are_not_accepted() {
    let cache = cache_of(&[(11, 0), (12, 9)]);

    assert!(cache.accepts_insert(DOCUMENT, 3, PdfPageIndex::MAX - 9));
    assert!(!cache.accepts_insert(DOCUMENT, 3, PdfPageIndex::MAX - 8));
    assert!(cache.accepts_insert(DOCUMENT, PdfPageIndex::MAX, 1));
    assert!(!cache.accepts_insert(DOCUMENT, 3, -1));
    assert!(cache.accepts_insert(OTHER_DOCUMENT, 3, PdfPageIndex::MAX - 3));
    assert!(!cache.accepts_insert(OTHER_DOCUMENT, 3, PdfPageIndex::MAX - 2));
    assert!(!cache.accepts_insert(OTHER_DOCUMENT, PdfPageIndex::MIN, 0));
}

#[test]
fn overflowing_deletions_are_not_accepted() {
    assert!(PdfPageIndexCache::accepts_delete(3, PdfPageIndex::MAX - 3));
    assert!(!PdfPageIndexCache::accepts_delete(3, PdfPageIndex::MAX - 2));
    assert!(!PdfPageIndexCache::accepts_delete(10, PdfPageIndex::MAX));
    assert!(!PdfPageIndexCache::accepts_delete(3, -1));
    assert!(PdfPageIndexCache::accepts_delete(0, PdfPageIndex::MAX));
}
