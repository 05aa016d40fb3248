//! A cache of the index positions of the open pages of PDF documents.
//!
//! Pages are known by raw handles. While a page is open, [cache::PdfPageIndexCache] remembers the
//! zero-based index position that the page has in its document, and keeps the remembered
//! positions accurate when pages are inserted into, or deleted from, the document.
//!
//! - [handles] holds the plain types that callers exchange with the cache.
//! - [keys] packs a document handle and a page handle, or a document handle and an index, into
//!   one hash table key.
//! - [document] is the mathematical model of what is cached for one document.
//! - [cache] is the cache itself.
//! - [laws] states what holds of the cache as a whole.
pub mod cache;
pub mod document;
pub mod handles;
mod keys;
pub mod laws;
