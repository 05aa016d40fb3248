//! The cache of the index positions of all open pages.
use crate::document::{
    DocumentPages, PageProperties, any_cached, delete_fits, greatest, is_greatest,
};
use crate::handles::{
    FPDF_DOCUMENT, FPDF_PAGE, PdfPageContentRegenerationStrategy, PdfPageIndex, fits,
};
use crate::keys::{
    index_in, index_key, lemma_index_key_injective, lemma_page_key_injective, pack_index,
    pack_page, page_in, page_key,
};
use crate::laws::{
    law_delete_keeps_valid, law_insert_keeps_valid, law_remove_keeps_valid, law_set_keeps_valid,
};
use std::collections::HashMap;
use vstd::prelude::*;

verus! {

broadcast use vstd::std_specs::hash::group_hash_axioms;

/// What is cached for one page.
#[derive(Clone, Copy, Debug, PartialEq, Eq)]
pub struct PdfPageCachedProperties {
    /// The index position of the page in its document.
    pub index: PdfPageIndex,
    /// When the content of the page is regenerated.
    pub content_regeneration_strategy: PdfPageContentRegenerationStrategy,
}

impl View for PdfPageCachedProperties {
    type V = PageProperties;

    open spec fn view(&self) -> PageProperties {
        PageProperties {
            index: self.index as int,
            content_regeneration_strategy: self.content_regeneration_strategy,
        }
    }
}

/// The properties of the pages of `document` in a hash table keyed by document and page.
spec fn properties_of(
    table: Map<u128, PdfPageCachedProperties>,
    document: FPDF_DOCUMENT,
) -> Map<FPDF_PAGE, PageProperties> {
    Map::new(
        |p: FPDF_PAGE| table.contains_key(page_key(document, p)),
        |p: FPDF_PAGE| table[page_key(document, p)]@,
    )
}

/// The pages of `document` in a hash table keyed by document and index position.
spec fn pages_of(table: Map<u128, FPDF_PAGE>, document: FPDF_DOCUMENT) -> Map<int, FPDF_PAGE> {
    Map::new(
        |i: int| fits(i) && table.contains_key(index_key(document, i as PdfPageIndex)),
        |i: int| table[index_key(document, i as PdfPageIndex)],
    )
}

/// The maximum of `document` in a hash table keyed by document.
spec fn maximum_of(
    table: Map<FPDF_DOCUMENT, PdfPageIndex>,
    document: FPDF_DOCUMENT,
) -> Option<int> {
    if table.contains_key(document) {
        Some(table[document] as int)
    } else {
        None
    }
}

proof fn lemma_insert_properties(
    table: Map<u128, PdfPageCachedProperties>,
    document: FPDF_DOCUMENT,
    page: FPDF_PAGE,
    props: PdfPageCachedProperties,
)
    ensures
        properties_of(table.insert(page_key(document, page), props), document) == properties_of(
            table,
            document,
        ).insert(page, props@),
        forall|other: FPDF_DOCUMENT|
            other != document ==> properties_of(
                table.insert(page_key(document, page), props),
                other,
            ) == #[trigger] properties_of(table, other),
{
    let after = table.insert(page_key(document, page), props);
    assert forall|d: FPDF_DOCUMENT, p: FPDF_PAGE| #[trigger]
        page_key(d, p) == page_key(document, page) implies d == document && p == page by {
        lemma_page_key_injective(d, p, document, page);
    }
    assert(properties_of(after, document) =~= properties_of(table, document).insert(page, props@));
    assert forall|other: FPDF_DOCUMENT| other != document implies properties_of(after, other)
        == #[trigger] properties_of(table, other) by {
        assert(properties_of(after, other) =~= properties_of(table, other));
    }
}

proof fn lemma_remove_properties(
    table: Map<u128, PdfPageCachedProperties>,
    document: FPDF_DOCUMENT,
    page: FPDF_PAGE,
)
    ensures
        properties_of(table.remove(page_key(document, page)), document) == properties_of(
            table,
            document,
        ).remove(page),
        forall|other: FPDF_DOCUMENT|
            other != document ==> properties_of(table.remove(page_key(document, page)), other)
                == #[trigger] properties_of(table, other),
{
    let after = table.remove(page_key(document, page));
    assert forall|d: FPDF_DOCUMENT, p: FPDF_PAGE| #[trigger]
        page_key(d, p) == page_key(document, page) implies d == document && p == page by {
        lemma_page_key_injective(d, p, document, page);
    }
    assert(properties_of(after, document) =~= properties_of(table, document).remove(page));
    assert forall|other: FPDF_DOCUMENT| other != document implies properties_of(after, other)
        == #[trigger] properties_of(table, other) by {
        assert(properties_of(after, other) =~= properties_of(table, other));
    }
}

proof fn lemma_insert_page(
    table: Map<u128, FPDF_PAGE>,
    document: FPDF_DOCUMENT,
    index: PdfPageIndex,
    page: FPDF_PAGE,
)
    ensures
        pages_of(table.insert(index_key(document, index), page), document) == pages_of(
            table,
            document,
        ).insert(index as int, page),
        forall|other: FPDF_DOCUMENT|
            other != document ==> pages_of(table.insert(index_key(document, index), page), other)
                == #[trigger] pages_of(table, other),
{
    let after = table.insert(index_key(document, index), page);
    assert forall|d: FPDF_DOCUMENT, i: PdfPageIndex| #[trigger]
        index_key(d, i) == index_key(document, index) implies d == document && i == index by {
        lemma_index_key_injective(d, i, document, index);
    }
    assert(pages_of(after, document) =~= pages_of(table, document).insert(index as int, page));
    assert forall|other: FPDF_DOCUMENT| other != document implies pages_of(after, other)
        == #[trigger] pages_of(table, other) by {
        assert(pages_of(after, other) =~= pages_of(table, other));
    }
}

proof fn lemma_remove_page(
    table: Map<u128, FPDF_PAGE>,
    document: FPDF_DOCUMENT,
    index: PdfPageIndex,
)
    ensures
        pages_of(table.remove(index_key(document, index)), document) == pages_of(
            table,
            document,
        ).remove(index as int),
        forall|other: FPDF_DOCUMENT|
            other != document ==> pages_of(table.remove(index_key(document, index)), other)
                == #[trigger] pages_of(table, other),
{
    let after = table.remove(index_key(document, index));
    assert forall|d: FPDF_DOCUMENT, i: PdfPageIndex| #[trigger]
        index_key(d, i) == index_key(document, index) implies d == document && i == index by {
        lemma_index_key_injective(d, i, document, index);
    }
    assert(pages_of(after, document) =~= pages_of(table, document).remove(index as int));
    assert forall|other: FPDF_DOCUMENT| other != document implies pages_of(after, other)
        == #[trigger] pages_of(table, other) by {
        assert(pages_of(after, other) =~= pages_of(table, other));
    }
}

/// Returns whether the given integer is a value of [PdfPageIndex].
fn is_index(i: i64) -> (result: bool)
    ensures
        result == fits(i as int),
{
    PdfPageIndex::MIN as i64 <= i && i <= PdfPageIndex::MAX as i64
}

/// A cache of the [PdfPageIndex] positions of all open pages, of any number of documents.
pub struct PdfPageIndexCache {
    /// The cached properties, by the key of document and page.
    pages_by_index: HashMap<u128, PdfPageCachedProperties>,
    /// The cached pages, by the key of document and index position.
    indices_by_page: HashMap<u128, FPDF_PAGE>,
    /// The maximum index position on record for each document.
    documents_by_maximum_index: HashMap<FPDF_DOCUMENT, PdfPageIndex>,
}

impl View for PdfPageIndexCache {
    type V = Map<FPDF_DOCUMENT, DocumentPages>;

    /// What is cached for each document; of a document that has not been used, nothing.
    open spec fn view(&self) -> Map<FPDF_DOCUMENT, DocumentPages> {
        Map::total(|document: FPDF_DOCUMENT| self.document(document))
    }
}

impl PdfPageIndexCache {
    /// What is cached for the given document.
    pub closed spec fn document(&self, document: FPDF_DOCUMENT) -> DocumentPages {
        DocumentPages {
            properties: properties_of(self.pages_by_index@, document),
            page_at: pages_of(self.indices_by_page@, document),
            maximum: maximum_of(self.documents_by_maximum_index@, document),
        }
    }

    /// Whether each key of the two tables that are keyed by a pair stands for a pair.
    spec fn keyed(&self) -> bool {
        &&& forall|key: u128| #[trigger]
            self.pages_by_index@.contains_key(key) ==> exists|d: FPDF_DOCUMENT, p: FPDF_PAGE|
                key == #[trigger] page_key(d, p)
        &&& forall|key: u128| #[trigger]
            self.indices_by_page@.contains_key(key) ==> exists|d: FPDF_DOCUMENT, i: PdfPageIndex|
                key == #[trigger] index_key(d, i)
    }

    /// Whether the tables are well formed, and what they hold of each document is valid.
    pub closed spec fn wf(&self) -> bool {
        &&& self.keyed()
        &&& forall|document: FPDF_DOCUMENT| #[trigger] self.document(document).valid()
    }

    /// Creates an empty cache.
    pub fn new() -> (cache: Self)
        ensures
            cache.wf(),
            forall|document: FPDF_DOCUMENT| #[trigger]
                cache@[document] == DocumentPages::empty(),
            forall|document: FPDF_DOCUMENT, page: FPDF_PAGE|
                !#[trigger] cache@[document].properties.contains_key(page),
            forall|document: FPDF_DOCUMENT, index: int|
                !#[trigger] cache@[document].page_at.contains_key(index),
            forall|document: FPDF_DOCUMENT| #[trigger] cache@[document].maximum is None,
    {
        let cache = PdfPageIndexCache {
            pages_by_index: HashMap::new(),
            indices_by_page: HashMap::new(),
            documents_by_maximum_index: HashMap::new(),
        };
        assert forall|document: FPDF_DOCUMENT| #[trigger]
            cache.document(document) == DocumentPages::empty() by {
            assert(cache.document(document) =~= DocumentPages::empty());
        }
        cache
    }

    // The three tables, one entry at a time.

    /// Returns the currently cached properties for the given raw document and page handles, if
    /// any.
    pub fn get(&self, document: FPDF_DOCUMENT, page: FPDF_PAGE) -> (props: Option<
        &PdfPageCachedProperties,
    >)
        ensures
            match props {
                Some(props) => self@[document].properties.contains_key(page)
                    && self@[document].properties[page] == props@
                    && self@[document].properties[page].index == props.index
                    && self@[document].properties[page].content_regeneration_strategy
                    == props.content_regeneration_strategy,
                None => !self@[document].properties.contains_key(page),
            },
    {
        self.pages_by_index.get(&pack_page(document, page))
    }

    /// Returns the raw page handle on record for the given raw document handle and
    /// [PdfPageIndex], if any.
    pub fn page_for_index(&self, document: FPDF_DOCUMENT, index: PdfPageIndex) -> (page: Option<
        FPDF_PAGE,
    >)
        ensures
            page == self@[document].page_at.get(index as int),
    {
        match self.indices_by_page.get(&pack_index(document, index)) {
            Some(page) => Some(*page),
            None => None,
        }
    }

    /// Returns the currently cached maximum [PdfPageIndex] for the given raw document handle, if
    /// any.
    pub fn maximum_index_for_document(&self, document: FPDF_DOCUMENT) -> (maximum: Option<
        PdfPageIndex,
    >)
        ensures
            match maximum {
                Some(m) => self@[document].maximum == Some(m as int),
                None => self@[document].maximum is None,
            },
    {
        match self.documents_by_maximum_index.get(&document) {
            Some(maximum) => Some(*maximum),
            None => None,
        }
    }

    /// Enters the given properties for the given page.
    fn put_properties(
        &mut self,
        document: FPDF_DOCUMENT,
        page: FPDF_PAGE,
        props: PdfPageCachedProperties,
    )
        requires
            old(self).keyed(),
        ensures
            final(self).keyed(),
            final(self)@ == old(self)@.insert(
                document,
                DocumentPages {
                    properties: old(self)@[document].properties.insert(page, props@),
                    ..old(self)@[document]
                },
            ),
    {
        self.pages_by_index.insert(pack_page(document, page), props);
        proof {
            lemma_insert_properties(old(self).pages_by_index@, document, page, props);
            assert(self@ =~= old(self)@.insert(
                document,
                DocumentPages {
                    properties: old(self)@[document].properties.insert(page, props@),
                    ..old(self)@[document]
                },
            ));
        }
    }

    /// Drops the properties of the given page, and returns them.
    fn drop_properties(&mut self, document: FPDF_DOCUMENT, page: FPDF_PAGE) -> (props: Option<
        PdfPageCachedProperties,
    >)
        requires
            old(self).keyed(),
        ensures
            final(self).keyed(),
            final(self)@ == old(self)@.insert(
                document,
                DocumentPages {
                    properties: old(self)@[document].properties.remove(page),
                    ..old(self)@[document]
                },
            ),
            match props {
                Some(props) => old(self)@[document].properties.contains_key(page)
                    && old(self)@[document].properties[page] == props@,
                None => !old(self)@[document].properties.contains_key(page),
            },
    {
        let props = self.pages_by_index.remove(&pack_page(document, page));
        proof {
            lemma_remove_properties(old(self).pages_by_index@, document, page);
            assert(self@ =~= old(self)@.insert(
                document,
                DocumentPages {
                    properties: old(self)@[document].properties.remove(page),
                    ..old(self)@[document]
                },
            ));
        }
        props
    }

    /// Puts the given page on record at the given index position.
    fn put_record(&mut self, document: FPDF_DOCUMENT, index: PdfPageIndex, page: FPDF_PAGE)
        requires
            old(self).keyed(),
        ensures
            final(self).keyed(),
            final(self)@ == old(self)@.insert(
                document,
                DocumentPages {
                    page_at: old(self)@[document].page_at.insert(index as int, page),
                    ..old(self)@[document]
                },
            ),
    {
        self.indices_by_page.insert(pack_index(document, index), page);
        proof {
            lemma_insert_page(old(self).indices_by_page@, document, index, page);
            assert(self@ =~= old(self)@.insert(
                document,
                DocumentPages {
                    page_at: old(self)@[document].page_at.insert(index as int, page),
                    ..old(self)@[document]
                },
            ));
        }
    }

    /// Drops the record at the given index position.
    fn drop_record(&mut self, document: FPDF_DOCUMENT, index: PdfPageIndex)
        requires
            old(self).keyed(),
        ensures
            final(self).keyed(),
            final(self)@ == old(self)@.insert(
                document,
                DocumentPages {
                    page_at: old(self)@[document].page_at.remove(index as int),
                    ..old(self)@[document]
                },
            ),
    {
        self.indices_by_page.remove(&pack_index(document, index));
        proof {
            lemma_remove_page(old(self).indices_by_page@, document, index);
            assert(self@ =~= old(self)@.insert(
                document,
                DocumentPages {
                    page_at: old(self)@[document].page_at.remove(index as int),
                    ..old(self)@[document]
                },
            ));
        }
    }

    /// Drops the record at the given index position if it is that of the given page. Other pages
    /// can be open at the same position.
    fn drop_record_of(&mut self, document: FPDF_DOCUMENT, index: PdfPageIndex, page: FPDF_PAGE)
        requires
            old(self).keyed(),
        ensures
            final(self).keyed(),
            final(self)@ == old(self)@.insert(
                document,
                DocumentPages {
                    page_at: if old(self)@[document].page_at.get(index as int) == Some(page) {
                        old(self)@[document].page_at.remove(index as int)
                    } else {
                        old(self)@[document].page_at
                    },
                    ..old(self)@[document]
                },
            ),
    {
        let on_record = match self.page_for_index(document, index) {
            Some(recorded) => recorded == page,
            None => false,
        };
        if on_record {
            self.drop_record(document, index);
        } else {
            assert(self@ =~= old(self)@.insert(document, old(self)@[document]));
        }
    }

    /// Records the given maximum index position for the given document; for `None`, none.
    fn put_maximum(&mut self, document: FPDF_DOCUMENT, maximum: Option<PdfPageIndex>)
        requires
            old(self).keyed(),
        ensures
            final(self).keyed(),
            final(self)@ == old(self)@.insert(
                document,
                DocumentPages {
                    maximum: match maximum {
                        Some(m) => Some(m as int),
                        None => None,
                    },
                    ..old(self)@[document]
                },
            ),
    {
        match maximum {
            Some(maximum) => {
                self.documents_by_maximum_index.insert(document, maximum);
            },
            None => {
                self.documents_by_maximum_index.remove(&document);
            },
        }
        assert(self@ =~= old(self)@.insert(
            document,
            DocumentPages {
                maximum: match maximum {
                    Some(m) => Some(m as int),
                    None => None,
                },
                ..old(self)@[document]
            },
        ));
    }

    // All entries of one document.

    /// Returns the cached pages of the given document, each of them once.
    fn cached_pages(&self, document: FPDF_DOCUMENT) -> (pages: Vec<FPDF_PAGE>)
        requires
            self.keyed(),
        ensures
            pages@.no_duplicates(),
            forall|p: FPDF_PAGE| #[trigger]
                pages@.contains(p) <==> self@[document].properties.contains_key(p),
    {
        let ghost keys = self.pages_by_index@.dom();
        let mut pages: Vec<FPDF_PAGE> = Vec::new();
        for key in it: self.pages_by_index.keys()
            invariant
                self.keyed(),
                keys == self.pages_by_index@.dom(),
                it.seq().unref().to_set() == keys,
                it.seq().no_duplicates(),
                pages@.no_duplicates(),
                forall|p: FPDF_PAGE| #[trigger]
                    pages@.contains(p) ==> keys.contains(page_key(document, p)) && exists|j: int|
                        0 <= j < it.index() && *#[trigger] it.seq()[j] == page_key(document, p),
                forall|j: int, p: FPDF_PAGE|
                    0 <= j < it.index() && *#[trigger] it.seq()[j] == #[trigger] page_key(
                        document,
                        p,
                    ) ==> pages@.contains(p),
        {
            proof {
                assert(it.seq().unref()[it.index()] == *key);
                assert(it.seq().unref().to_set().contains(*key));
            }
            if let Some(page) = page_in(*key, document) {
                proof {
                    assert forall|p: FPDF_PAGE|
                        *key == #[trigger] page_key(document, p) implies p == page by {
                        lemma_page_key_injective(document, p, document, page);
                    }
                    assert(!pages@.contains(page));
                    broadcast use vstd::seq_lib::lemma_seq_contains_after_push;

                }
                pages.push(page);
            }
        }
        proof {
            assert forall|p: FPDF_PAGE| #[trigger]
                pages@.contains(p) <==> self@[document].properties.contains_key(p) by {
                if self@[document].properties.contains_key(p) {
                    assert(keys.contains(page_key(document, p)));
                }
            }
        }
        pages
    }

    /// Returns the index positions of the given document at which a page is on record.
    fn recorded_positions(&self, document: FPDF_DOCUMENT) -> (positions: Vec<PdfPageIndex>)
        requires
            self.keyed(),
        ensures
            forall|i: PdfPageIndex| #[trigger]
                positions@.contains(i) <==> self@[document].page_at.contains_key(i as int),
    {
        let ghost keys = self.indices_by_page@.dom();
        let mut positions: Vec<PdfPageIndex> = Vec::new();
        for key in it: self.indices_by_page.keys()
            invariant
                self.keyed(),
                keys == self.indices_by_page@.dom(),
                it.seq().unref().to_set() == keys,
                forall|i: PdfPageIndex| #[trigger]
                    positions@.contains(i) ==> keys.contains(index_key(document, i)),
                forall|j: int, i: PdfPageIndex|
                    0 <= j < it.index() && *#[trigger] it.seq()[j] == #[trigger] index_key(
                        document,
                        i,
                    ) ==> positions@.contains(i),
        {
            proof {
                assert(it.seq().unref()[it.index()] == *key);
                assert(it.seq().unref().to_set().contains(*key));
            }
            if let Some(index) = index_in(*key, document) {
                proof {
                    assert forall|i: PdfPageIndex|
                        *key == #[trigger] index_key(document, i) implies i == index by {
                        lemma_index_key_injective(document, i, document, index);
                    }
                    broadcast use vstd::seq_lib::lemma_seq_contains_after_push;

                }
                positions.push(index);
            }
        }
        proof {
            assert forall|i: PdfPageIndex| #[trigger]
                positions@.contains(i) <==> self@[document].page_at.contains_key(i as int) by {
                if self@[document].page_at.contains_key(i as int) {
                    assert(keys.contains(index_key(document, i)));
                }
            }
        }
        positions
    }

    /// Returns the greatest index position of a cached page of the given document, if any.
    fn greatest_index(&self, document: FPDF_DOCUMENT) -> (maximum: Option<PdfPageIndex>)
        requires
            self.keyed(),
        ensures
            match maximum {
                Some(m) => is_greatest(self@[document].properties, m as int) && greatest(
                    self@[document].properties,
                ) == Some(m as int),
                None => !any_cached(self@[document].properties) && greatest(
                    self@[document].properties,
                ) is None,
            },
    {
        let ghost properties = self@[document].properties;
        let pages = self.cached_pages(document);
        let mut maximum: Option<PdfPageIndex> = None;
        for k in 0..pages.len()
            invariant
                properties == self@[document].properties,
                forall|p: FPDF_PAGE| #[trigger] pages@.contains(p) <==> properties.contains_key(p),
                maximum matches Some(m) ==> exists|p: FPDF_PAGE| #[trigger]
                    properties.contains_key(p) && properties[p].index == m,
                forall|j: int|
                    0 <= j < k ==> (maximum matches Some(m)
                        && properties[#[trigger] pages@[j]].index <= m),
        {
            assert(pages@.contains(pages@[k as int]));
            if let Some(props) = self.get(document, pages[k]) {
                match maximum {
                    Some(m) => {
                        if props.index > m {
                            maximum = Some(props.index);
                        }
                    },
                    None => {
                        maximum = Some(props.index);
                    },
                }
            }
        }
        proof {
            assert forall|p: FPDF_PAGE| #[trigger] properties.contains_key(p) implies (
            maximum matches Some(m) && properties[p].index <= m) by {
                assert(pages@.contains(p));
            }
            if let Some(m) = maximum {
                assert(is_greatest(properties, m as int));
            }
        }
        maximum
    }

    /// Forgets each page of the given document at the index positions `low..high`, and its record
    /// with it.
    fn evict(&mut self, document: FPDF_DOCUMENT, low: PdfPageIndex, high: PdfPageIndex)
        requires
            old(self).keyed(),
        ensures
            final(self).keyed(),
            final(self)@ == old(self)@.insert(
                document,
                old(self)@[document].evict(low as int, high as int),
            ),
    {
        let ghost before = self@[document];
        let pages = self.cached_pages(document);
        for k in 0..pages.len()
            invariant
                self.keyed(),
                before == old(self)@[document],
                self@ == old(self)@.insert(document, self@[document]),
                self@[document].page_at == before.page_at,
                self@[document].maximum == before.maximum,
                forall|p: FPDF_PAGE| #[trigger]
                    pages@.contains(p) <==> before.properties.contains_key(p),
                forall|p: FPDF_PAGE| #[trigger]
                    self@[document].properties.contains_key(p) ==> before.properties.contains_key(p)
                        && self@[document].properties[p] == before.properties[p],
                forall|p: FPDF_PAGE|
                    before.properties.contains_key(p) && !(low <= before.properties[p].index < high)
                        ==> #[trigger] self@[document].properties.contains_key(p),
                forall|j: int|
                    0 <= j < k && low <= before.properties[#[trigger] pages@[j]].index < high
                        ==> !self@[document].properties.contains_key(pages@[j]),
        {
            let page = pages[k];
            assert(pages@.contains(page));
            if let Some(props) = self.get(document, page) {
                if low <= props.index && props.index < high {
                    self.drop_properties(document, page);
                    assert(self@ =~= old(self)@.insert(document, self@[document]));
                }
            }
        }
        proof {
            let goal = before.evict(low as int, high as int);
            assert forall|p: FPDF_PAGE| #[trigger]
                self@[document].properties.contains_key(p) implies goal.properties.contains_key(
                p,
            ) by {
                assert(pages@.contains(p));
            }
            assert(self@[document].properties =~= goal.properties);
        }
        let positions = self.recorded_positions(document);
        let ghost evicted = self@[document].properties;
        for k in 0..positions.len()
            invariant
                self.keyed(),
                before == old(self)@[document],
                self@ == old(self)@.insert(document, self@[document]),
                self@[document].properties == evicted,
                self@[document].maximum == before.maximum,
                forall|i: PdfPageIndex| #[trigger]
                    positions@.contains(i) <==> before.page_at.contains_key(i as int),
                forall|i: int| #[trigger]
                    self@[document].page_at.contains_key(i) ==> before.page_at.contains_key(i)
                        && self@[document].page_at[i] == before.page_at[i],
                forall|i: int|
                    before.page_at.contains_key(i) && !(low <= i < high)
                        ==> #[trigger] self@[document].page_at.contains_key(i),
                forall|j: int|
                    0 <= j < k && low <= #[trigger] positions@[j] < high
                        ==> !self@[document].page_at.contains_key(positions@[j] as int),
        {
            let index: PdfPageIndex = positions[k];
            if low <= index && index < high {
                self.drop_record(document, index);
                assert(self@ =~= old(self)@.insert(document, self@[document]));
            }
        }
        proof {
            let goal = before.evict(low as int, high as int);
            assert forall|i: int| #[trigger]
                self@[document].page_at.contains_key(i) implies goal.page_at.contains_key(i) by {
                assert(positions@.contains(i as PdfPageIndex));
            }
            assert(self@[document].page_at =~= goal.page_at);
            assert(self@[document] =~= goal);
        }
    }

    /// Moves each page of the given document at the index position `low` or behind by `by`
    /// positions.
    fn shift_properties(&mut self, document: FPDF_DOCUMENT, low: PdfPageIndex, by: PdfPageIndex)
        requires
            old(self).keyed(),
            forall|p: FPDF_PAGE| #[trigger]
                old(self)@[document].properties.contains_key(p)
                    && old(self)@[document].properties[p].index >= low ==> fits(
                    old(self)@[document].properties[p].index + by,
                ),
        ensures
            final(self).keyed(),
            final(self)@ == old(self)@.insert(
                document,
                DocumentPages {
                    properties: old(self)@[document].shift(low as int, by as int).properties,
                    ..old(self)@[document]
                },
            ),
    {
        let ghost before = self@[document];
        let ghost goal = before.shift(low as int, by as int);
        let pages = self.cached_pages(document);
        for k in 0..pages.len()
            invariant
                self.keyed(),
                before == old(self)@[document],
                goal == before.shift(low as int, by as int),
                forall|p: FPDF_PAGE| #[trigger]
                    before.properties.contains_key(p) && before.properties[p].index >= low ==> fits(
                        before.properties[p].index + by,
                    ),
                self@ == old(self)@.insert(document, self@[document]),
                self@[document].page_at == before.page_at,
                self@[document].maximum == before.maximum,
                pages@.no_duplicates(),
                forall|p: FPDF_PAGE| #[trigger]
                    pages@.contains(p) <==> before.properties.contains_key(p),
                self@[document].properties.dom() == before.properties.dom(),
                forall|j: int|
                    0 <= j < k ==> self@[document].properties[#[trigger] pages@[j]]
                        == goal.properties[pages@[j]],
                forall|j: int|
                    k <= j < pages@.len() ==> self@[document].properties[#[trigger] pages@[j]]
                        == before.properties[pages@[j]],
        {
            let page = pages[k];
            assert(pages@.contains(page));
            if let Some(props) = self.get(document, page) {
                let props = *props;
                if props.index >= low {
                    self.put_properties(
                        document,
                        page,
                        PdfPageCachedProperties { index: props.index + by, ..props },
                    );
                    assert(self@ =~= old(self)@.insert(document, self@[document]));
                    assert(self@[document].properties.dom() =~= before.properties.dom());
                }
            }
        }
        proof {
            assert forall|p: FPDF_PAGE| #[trigger]
                before.properties.contains_key(p) implies self@[document].properties[p]
                == goal.properties[p] by {
                assert(pages@.contains(p));
            }
            assert(self@[document].properties =~= goal.properties);
            assert(self@[document] =~= DocumentPages { properties: goal.properties, ..before });
        }
    }

    /// Moves each record of the given document at the index position `low` or behind by `by`
    /// positions.
    fn shift_records(&mut self, document: FPDF_DOCUMENT, low: PdfPageIndex, by: PdfPageIndex)
        requires
            old(self).keyed(),
            forall|i: int| #[trigger]
                old(self)@[document].page_at.contains_key(i) && i >= low ==> fits(i + by),
        ensures
            final(self).keyed(),
            final(self)@ == old(self)@.insert(
                document,
                DocumentPages {
                    page_at: old(self)@[document].shift(low as int, by as int).page_at,
                    ..old(self)@[document]
                },
            ),
    {
        let ghost before = self@[document];
        let ghost goal = before.shift(low as int, by as int);

        // The records are taken out of the way before they are entered anew, so that none replaces
        // one that has yet to move.

        let positions = self.recorded_positions(document);
        let mut moved: Vec<(PdfPageIndex, FPDF_PAGE)> = Vec::new();
        for k in 0..positions.len()
            invariant
                self.keyed(),
                before == old(self)@[document],
                self@ == old(self)@.insert(document, self@[document]),
                self@[document].properties == before.properties,
                self@[document].maximum == before.maximum,
                forall|i: PdfPageIndex| #[trigger]
                    positions@.contains(i) <==> before.page_at.contains_key(i as int),
                forall|i: int| #[trigger]
                    self@[document].page_at.contains_key(i) ==> before.page_at.contains_key(i)
                        && self@[document].page_at[i] == before.page_at[i],
                forall|i: int|
                    before.page_at.contains_key(i) && i < low
                        ==> #[trigger] self@[document].page_at.contains_key(i),
                forall|j: int|
                    0 <= j < k && #[trigger] positions@[j] >= low
                        ==> !self@[document].page_at.contains_key(positions@[j] as int),
                forall|i: int|
                    before.page_at.contains_key(i)
                        && !#[trigger] self@[document].page_at.contains_key(i) ==> exists|n: int|
                        0 <= n < moved@.len() && (#[trigger] moved@[n]).0 == i,
                forall|n: int|
                    0 <= n < moved@.len() ==> (#[trigger] moved@[n]).0 >= low
                        && before.page_at.contains_key(moved@[n].0 as int)
                        && before.page_at[moved@[n].0 as int] == moved@[n].1,
        {
            let index: PdfPageIndex = positions[k];
            if index >= low {
                if let Some(page) = self.page_for_index(document, index) {
                    let ghost was = moved@;
                    moved.push((index, page));
                    self.drop_record(document, index);
                    proof {
                        assert(self@ =~= old(self)@.insert(document, self@[document]));
                        assert(moved@[was.len() as int].0 == index);
                        assert forall|n: int| 0 <= n < was.len() implies #[trigger] was[n]
                            == moved@[n] by {}
                    }
                }
            }
        }
        proof {
            assert forall|i: int| #[trigger]
                self@[document].page_at.contains_key(i) <==> before.page_at.contains_key(i) && i
                < low by {
                if before.page_at.contains_key(i) {
                    assert(positions@.contains(i as PdfPageIndex));
                }
            }
            assert forall|i: int| #[trigger]
                before.page_at.contains_key(i) && i >= low implies exists|n: int|
                0 <= n < moved@.len() && (#[trigger] moved@[n]).0 == i by {
                assert(!self@[document].page_at.contains_key(i));
            }
        }
        for n in 0..moved.len()
            invariant
                self.keyed(),
                before == old(self)@[document],
                forall|i: int| #[trigger]
                    before.page_at.contains_key(i) && i >= low ==> fits(i + by),
                self@ == old(self)@.insert(document, self@[document]),
                self@[document].properties == before.properties,
                self@[document].maximum == before.maximum,
                forall|j: int|
                    0 <= j < moved@.len() ==> (#[trigger] moved@[j]).0 >= low
                        && before.page_at.contains_key(moved@[j].0 as int)
                        && before.page_at[moved@[j].0 as int] == moved@[j].1,
                forall|j: int|
                    0 <= j < n ==> self@[document].page_at.contains_key(
                        (#[trigger] moved@[j]).0 + by,
                    ),
                forall|i: int|
                    before.page_at.contains_key(i) && i < low
                        ==> #[trigger] self@[document].page_at.contains_key(i),
                forall|i: int| #[trigger]
                    self@[document].page_at.contains_key(i) ==> {
                        ||| i - by >= low && before.page_at.contains_key(i - by)
                            && self@[document].page_at[i] == before.page_at[i - by]
                        ||| i < low && before.page_at.contains_key(i)
                            && self@[document].page_at[i] == before.page_at[i] && forall|j: int|
                            0 <= j < n ==> (#[trigger] moved@[j]).0 + by != i
                    },
        {
            let (index, page) = moved[n];
            self.put_record(document, index + by, page);
            assert(self@ =~= old(self)@.insert(document, self@[document]));
        }
        proof {
            assert(self@[document].page_at =~= goal.page_at);
            assert(self@[document] =~= DocumentPages { page_at: goal.page_at, ..before });
        }
    }

    /// Moves each page of the given document at the index position `low` or behind by `by`
    /// positions, and its record with it.
    fn shift(&mut self, document: FPDF_DOCUMENT, low: PdfPageIndex, by: PdfPageIndex)
        requires
            old(self).keyed(),
            forall|p: FPDF_PAGE| #[trigger]
                old(self)@[document].properties.contains_key(p)
                    && old(self)@[document].properties[p].index >= low ==> fits(
                    old(self)@[document].properties[p].index + by,
                ),
            forall|i: int| #[trigger]
                old(self)@[document].page_at.contains_key(i) && i >= low ==> fits(i + by),
        ensures
            final(self).keyed(),
            final(self)@ == old(self)@.insert(
                document,
                old(self)@[document].shift(low as int, by as int),
            ),
    {
        let ghost goal = self@[document].shift(low as int, by as int);
        self.shift_properties(document, low, by);
        self.shift_records(document, low, by);
        proof {
            assert(self@[document] =~= goal);
            assert(self@ =~= old(self)@.insert(document, goal));
        }
    }

    // What the cache does.

    /// What is cached is valid, and all index positions in it are values of [PdfPageIndex].
    pub proof fn lemma_within_limits(&self, document: FPDF_DOCUMENT)
        requires
            self.wf(),
        ensures
            self@[document].valid(),
            self@[document].maximum matches Some(m) ==> fits(m),
            forall|i: int| #[trigger] self@[document].page_at.contains_key(i) ==> fits(i),
            forall|p: FPDF_PAGE| #[trigger]
                self@[document].properties.contains_key(p) ==> fits(
                    self@[document].properties[p].index,
                ),
    {
        assert(self.document(document).valid());
    }

    /// A change of one document to a valid one keeps the cache well formed.
    proof fn lemma_change_keeps_wf(&self, before: &Self, document: FPDF_DOCUMENT)
        requires
            before.wf(),
            self.keyed(),
            self@ == before@.insert(document, self@[document]),
            self@[document].valid(),
        ensures
            self.wf(),
    {
        assert forall|d: FPDF_DOCUMENT| #[trigger] self.document(d).valid() by {
            assert(self@[d] == self.document(d));
            assert(before@[d] == before.document(d));
        }
    }

    /// Returns the number of pages currently cached for the given raw document handle. Pages of
    /// other documents do not count.
    pub fn count_for_document(&self, document: FPDF_DOCUMENT) -> (count: usize)
        requires
            self.wf(),
        ensures
            self@[document].properties.dom().finite(),
            count == self@[document].properties.len(),
    {
        let pages = self.cached_pages(document);
        proof {
            pages@.unique_seq_to_set();
            assert(pages@.to_set() =~= self@[document].properties.dom());
        }
        pages.len()
    }

    /// Removes the cached [PdfPageIndex] value for the given raw document and page handles, and
    /// returns the properties that were cached.
    pub fn remove(&mut self, document: FPDF_DOCUMENT, page: FPDF_PAGE) -> (props: Option<
        PdfPageCachedProperties,
    >)
        requires
            old(self).wf(),
        ensures
            final(self).wf(),
            final(self)@ == old(self)@.insert(document, old(self)@[document].remove(page)),
            old(self)@[document].properties.contains_key(page) && old(self)@[document].maximum
                == Some(old(self)@[document].properties[page].index)
                ==> final(self)@[document].tight(),
            match props {
                Some(props) => old(self)@[document].properties.contains_key(page)
                    && old(self)@[document].properties[page] == props@,
                None => !old(self)@[document].properties.contains_key(page),
            },
    {
        let ghost before = self@[document];
        let props = self.drop_properties(document, page);

        if let Some(props) = props {
            self.drop_record_of(document, props.index, page);

            let was_maximum = match self.maximum_index_for_document(document) {
                Some(maximum) => maximum == props.index,
                None => false,
            };
            let greatest = self.greatest_index(document);

            if was_maximum || greatest.is_none() {
                // This page had the maximum page index for this document, or was the last one.
                // Now that it's been removed from the cache, the greatest index position among
                // the pages of this document alone takes over, if there is one.

                self.put_maximum(document, greatest);
            }
        }
        proof {
            assert(self@[document] =~= before.remove(page));
            assert(self@ =~= old(self)@.insert(document, before.remove(page)));
            old(self).lemma_within_limits(document);
            law_remove_keeps_valid(before, page);
            self.lemma_change_keeps_wf(old(self), document);
        }
        props
    }

    /// Sets the currently cached properties for the given raw document and page handles. A page
    /// that is cached at another index position is no longer cached there. The maximum of the
    /// document never falls.
    pub fn set(
        &mut self,
        document: FPDF_DOCUMENT,
        page: FPDF_PAGE,
        props: PdfPageCachedProperties,
    )
        requires
            old(self).wf(),
        ensures
            final(self).wf(),
            final(self)@ == old(self)@.insert(document, old(self)@[document].set(page, props@)),
    {
        let ghost before = self@[document];

        // A page that is cached already is no longer on record where it was.

        let cached = match self.get(document, page) {
            Some(cached) => Some(cached.index),
            None => None,
        };
        if let Some(index) = cached {
            self.drop_record_of(document, index, page);
        }
        assert(self@ =~= old(self)@.insert(
            document,
            DocumentPages { page_at: before.page_at_without(page), ..before },
        ));

        // Keep track of the maximum page index for this document. We'll need to know this
        // when page insertions or deletions shuffle indices.

        let raises = match self.maximum_index_for_document(document) {
            Some(maximum) => props.index > maximum,
            None => true,
        };
        if raises {
            self.put_maximum(document, Some(props.index));
        }

        self.put_record(document, props.index, page);
        self.put_properties(document, page, props);

        proof {
            assert(self@[document] =~= before.set(page, props@));
            assert(self@ =~= old(self)@.insert(document, before.set(page, props@)));
            old(self).lemma_within_limits(document);
            law_set_keeps_valid(before, page, props@);
            self.lemma_change_keeps_wf(old(self), document);
        }
    }

    /// Returns whether the given count is not negative, and no index position overflows in an
    /// insertion of that number of pages at the given index position.
    pub fn accepts_insert(
        &self,
        document: FPDF_DOCUMENT,
        index: PdfPageIndex,
        count: PdfPageIndex,
    ) -> (accepts: bool)
        ensures
            accepts == self@[document].insert_fits(index as int, count as int),
            self@[document].maximum matches Some(m) ==> (accepts <==> 0 <= count && i32::MIN <= m
                + count <= i32::MAX),
            self@[document].maximum is None ==> (accepts <==> 0 <= count && i32::MIN <= index
                + count - 1 && index + count <= i32::MAX),
    {
        let end: i64 = index as i64 + count as i64;
        0 <= count && match self.maximum_index_for_document(document) {
            Some(maximum) => is_index(maximum as i64 + count as i64),
            None => is_index(end) && is_index(end - 1),
        }
    }

    /// Returns whether the given count is not negative, and the end of the range of that number of
    /// pages at the given index position does not overflow.
    pub fn accepts_delete(index: PdfPageIndex, count: PdfPageIndex) -> (accepts: bool)
        ensures
            accepts == delete_fits(index as int, count as int),
            accepts <==> 0 <= count && i32::MIN <= index + count <= i32::MAX,
    {
        0 <= count && is_index(index as i64 + count as i64)
    }

    /// Adjusts all cached [PdfPageIndex] values for the given document as necessary to accommodate
    /// an insertion of the given number of pages at the given index position.
    pub fn insert(&mut self, document: FPDF_DOCUMENT, index: PdfPageIndex, count: PdfPageIndex)
        requires
            old(self).wf(),
            old(self)@[document].insert_fits(index as int, count as int),
        ensures
            final(self).wf(),
            final(self)@ == old(self)@.insert(
                document,
                old(self)@[document].insert(index as int, count as int),
            ),
    {
        let ghost before = self@[document];
        proof {
            self.lemma_within_limits(document);
        }

        // Shuffle down all pages in the document at the given index position or behind it.

        self.shift(document, index, count);

        match self.maximum_index_for_document(document) {
            Some(maximum) => {
                self.put_maximum(document, Some(maximum + count));
            },
            None => {
                // This is the first page index we're caching for this document.

                self.put_maximum(document, Some(index + count - 1));
            },
        }
        proof {
            assert(self@[document] =~= before.insert(index as int, count as int));
            assert(self@ =~= old(self)@.insert(
                document,
                before.insert(index as int, count as int),
            ));
            law_insert_keeps_valid(before, index as int, count as int);
            self.lemma_change_keeps_wf(old(self), document);
        }
    }

    /// Adjusts all cached [PdfPageIndex] values for the given document as necessary to accommodate
    /// a deletion of the given number of pages at the given index position.
    pub fn delete(&mut self, document: FPDF_DOCUMENT, index: PdfPageIndex, count: PdfPageIndex)
        requires
            old(self).wf(),
            delete_fits(index as int, count as int),
        ensures
            final(self).wf(),
            final(self)@ == old(self)@.insert(
                document,
                old(self)@[document].delete(index as int, count as int),
            ),
    {
        let ghost before = self@[document];
        let end: PdfPageIndex = index + count;
        proof {
            self.lemma_within_limits(document);
        }

        // Remove the deleted pages from the cache, and shuffle up all pages behind them.

        self.evict(document, index, end);
        self.shift(document, end, -count);

        // Update the maximum index position for this document.

        let maximum = match self.maximum_index_for_document(document) {
            Some(maximum) => {
                if self.greatest_index(document).is_none() {
                    // There's no longer any page indices cached for this document.

                    None
                } else if index > maximum {
                    Some(maximum)
                } else if end <= maximum {
                    Some(maximum - count)
                } else {
                    // A page that is left lies in front of the deleted range.

                    proof {
                        let left = self@[document].properties;
                        let p = choose|p: FPDF_PAGE| #[trigger] left.contains_key(p);
                        assert(before.properties.contains_key(p));
                    }
                    Some(index - 1)
                }
            },
            None => None,
        };
        self.put_maximum(document, maximum);
        proof {
            assert(self@[document] =~= before.delete(index as int, count as int));
            assert(self@ =~= old(self)@.insert(
                document,
                before.delete(index as int, count as int),
            ));
            law_delete_keeps_valid(before, index as int, count as int);
            self.lemma_change_keeps_wf(old(self), document);
        }
    }

    // What follows is the interface that the owners of open pages use.

    /// Caches the given properties for the given raw document and page handles.
    pub fn cache_props_for_page(
        &mut self,
        document: FPDF_DOCUMENT,
        page: FPDF_PAGE,
        index: PdfPageIndex,
        content_regeneration_strategy: PdfPageContentRegenerationStrategy,
    )
        requires
            old(self).wf(),
        ensures
            final(self).wf(),
            final(self)@ == old(self)@.insert(
                document,
                old(self)@[document].set(
                    page,
                    PageProperties { index: index as int, content_regeneration_strategy },
                ),
            ),
    {
        self.set(document, page, PdfPageCachedProperties { index, content_regeneration_strategy })
    }

    /// Returns the current [PdfPageIndex] value for the given raw document and page handles, if
    /// any.
    pub fn get_index_for_page(&self, document: FPDF_DOCUMENT, page: FPDF_PAGE) -> (index: Option<
        PdfPageIndex,
    >)
        ensures
            match index {
                Some(index) => self@[document].properties.contains_key(page)
                    && self@[document].properties[page].index == index,
                None => !self@[document].properties.contains_key(page),
            },
    {
        match self.get(document, page) {
            Some(props) => Some(props.index),
            None => None,
        }
    }

    /// Returns the current [PdfPageContentRegenerationStrategy] value for the given raw document
    /// and page handles, if any.
    pub fn get_content_regeneration_strategy_for_page(
        &self,
        document: FPDF_DOCUMENT,
        page: FPDF_PAGE,
    ) -> (strategy: Option<PdfPageContentRegenerationStrategy>)
        ensures
            match strategy {
                Some(strategy) => self@[document].properties.contains_key(page)
                    && self@[document].properties[page].content_regeneration_strategy == strategy,
                None => !self@[document].properties.contains_key(page),
            },
    {
        match self.get(document, page) {
            Some(props) => Some(props.content_regeneration_strategy),
            None => None,
        }
    }

    /// Removes the cached [PdfPageIndex] value for the given raw document and page handles.
    pub fn remove_index_for_page(&mut self, document: FPDF_DOCUMENT, page: FPDF_PAGE)
        requires
            old(self).wf(),
        ensures
            final(self).wf(),
            final(self)@ == old(self)@.insert(document, old(self)@[document].remove(page)),
            old(self)@[document].properties.contains_key(page) && old(self)@[document].maximum
                == Some(old(self)@[document].properties[page].index)
                ==> final(self)@[document].tight(),
    {
        self.remove(document, page);
    }

    /// Adjusts all cached [PdfPageIndex] values for the given document as necessary to accommodate
    /// an insertion of the given number of pages at the given index position.
    pub fn insert_pages_at_index(
        &mut self,
        document: FPDF_DOCUMENT,
        index: PdfPageIndex,
        count: PdfPageIndex,
    )
        requires
            old(self).wf(),
            old(self)@[document].insert_fits(index as int, count as int),
        ensures
            final(self).wf(),
            final(self)@ == old(self)@.insert(
                document,
                old(self)@[document].insert(index as int, count as int),
            ),
    {
        self.insert(document, index, count);
    }

    /// Adjusts all cached [PdfPageIndex] values for the given document as necessary to accommodate
    /// a deletion of the given number of pages at the given index position.
    pub fn delete_pages_at_index(
        &mut self,
        document: FPDF_DOCUMENT,
        index: PdfPageIndex,
        count: PdfPageIndex,
    )
        requires
            old(self).wf(),
            delete_fits(index as int, count as int),
        ensures
            final(self).wf(),
            final(self)@ == old(self)@.insert(
                document,
                old(self)@[document].delete(index as int, count as int),
            ),
    {
        self.delete(document, index, count);
    }
}

} // verus!
