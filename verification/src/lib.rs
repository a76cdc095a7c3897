//! A verified crawl engine with an incremental full-text search index.
//!
//! The library holds the logic of a small web crawler: the frontier queue,
//! the visited-URL guard, the bounded dispatch state machine, the URL
//! normalizer, the page extractor and the adapter around the search index.
//! HTML parsing, URL resolution and index scoring are performed by outside
//! crates behind narrow trusted wrappers; everything around those calls is
//! verified.

pub mod engine;
pub mod frontier;
pub mod indexer;
pub mod page;
pub mod text;
pub mod visited;
pub mod urlnorm;
