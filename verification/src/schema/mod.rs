//! Database schema: the migration registry and the planning of runs.
pub mod migration;

pub use migration::registry::expected_tables;
