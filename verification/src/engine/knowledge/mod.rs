//! Engine lifecycle state and the in-memory event log.
pub mod context;
pub mod event_log;
pub mod lifecycle;

pub use context::{EngineInfo, EngineState, ProjectStatus};
pub use event_log::{EventLog, EventLogEntry};
