//! The knowledge engine: indexing, ignore rules, search, and state.
pub mod error;
pub mod index;
pub mod knowledge;
