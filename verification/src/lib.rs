//! Mercury Cortex core: the verified logic of the knowledge engine.
pub mod client;
pub mod clock;
pub mod db;
pub mod engine;
pub mod runtime;
pub mod schema;
pub mod service;
pub mod text;
pub mod util;
