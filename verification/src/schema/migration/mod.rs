//! Schema migrations.
pub mod registry;
pub mod run;
pub mod statements;
