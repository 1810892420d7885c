//! Service layer: the decisions behind profiles, projects, file data,
//! graph queries and project scaffolding.
pub mod error;
pub mod file_data;
pub mod graph;
pub mod profile;
pub mod project;
pub mod scaffold;

pub use error::ServiceError;
