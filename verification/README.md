# page_index_cache

A cache of the index positions of the open pages of PDF documents, written and verified in Verus.

While a page is open, the cache remembers its zero-based index position in its document and when
its content is to be regenerated. When pages are inserted into a document, or deleted from it, the
remembered positions of its other open pages move along.

- `src/handles.rs`: the types that callers exchange with the cache. Handles are plain integers.
- `src/keys.rs`: hash table keys that stand for a pair.
- `src/document.rs`: the model of what is cached for one document, and of what each call does to it.
- `src/cache.rs`: the cache, with its contracts over that model.
- `src/laws.rs`: what holds of the cache as a whole.
- `app/`: the process-wide cache behind a mutex.
- `tests/`: scenarios.

A page of a document can be open under several handles. Each handle is cached, moved and forgotten
on its own; the one that was cached last is on record at the index position that they share.
