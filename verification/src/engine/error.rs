//! Errors of the knowledge engine.
use vstd::prelude::*;
use vstd::string::StringExecFns;

use crate::service::ServiceError;

verus! {

/// Errors produced by the knowledge engine. The outside errors it wraps
/// (I/O, database, internal) are carried by their text.
#[derive(Debug, Clone, PartialEq, Eq)]
pub enum EngineError {
    /// `start()` was called on an already-running engine.
    AlreadyRunning,
    /// An operation requires the engine to be running.
    NotRunning,
    /// An I/O error.
    Io(String),
    /// A database error.
    Database(String),
    /// Any other internal error.
    Internal(String),
}

impl EngineError {
    /// The text of the error.
    pub open spec fn spec_message(self) -> Seq<char> {
        match self {
            EngineError::AlreadyRunning => "engine is already running"@,
            EngineError::NotRunning => "engine is not running"@,
            EngineError::Io(m) => "I/O error: "@ + m@,
            EngineError::Database(m) => "database error: "@ + m@,
            EngineError::Internal(m) => "internal error: "@ + m@,
        }
    }

    /// The text of the error, e.g. `internal error: no active project`.
    pub fn message(&self) -> (s: String)
        ensures
            s@ == self.spec_message(),
    {
        match self {
            EngineError::AlreadyRunning => "engine is already running".to_string(),
            EngineError::NotRunning => "engine is not running".to_string(),
            EngineError::Io(m) => {
                let mut s = "I/O error: ".to_string();
                s.append(m.as_str());
                s
            },
            EngineError::Database(m) => {
                let mut s = "database error: ".to_string();
                s.append(m.as_str());
                s
            },
            EngineError::Internal(m) => {
                let mut s = "internal error: ".to_string();
                s.append(m.as_str());
                s
            },
        }
    }

    /// The service-layer error for an engine error: an internal error
    /// carrying the engine error's text.
    pub fn to_service_error(&self) -> (e: ServiceError)
        ensures
            e matches ServiceError::Internal(m) && m@ == self.spec_message(),
    {
        ServiceError::Internal(self.message())
    }
}

} // verus!
