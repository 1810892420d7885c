//! File indexing: ignore rules, caches, hashing and search.
pub mod cache;
pub mod hash;
pub mod importer;
pub mod mcignore;
pub mod runtime_index;
pub mod search;

pub use mcignore::McIgnore;
pub use search::SearchQuery;
