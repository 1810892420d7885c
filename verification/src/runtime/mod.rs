//! Runtime coordination: lifecycle phases, health and error reporting.
pub mod context;
pub mod startup;
pub mod status;

pub use context::RuntimeConfig;
