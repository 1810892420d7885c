//! Unified error type for the service layer.
use vstd::prelude::*;

use vstd::string::StringExecFns;

verus! {

/// Errors returned by service-layer operations.
#[derive(Debug, Clone, PartialEq, Eq)]
pub enum ServiceError {
    NotFound(String),
    Database(String),
    Validation(String),
    Internal(String),
    RuntimeNotReady(String),
}

impl ServiceError {
    /// The prefix that the error's text puts before its detail.
    pub open spec fn spec_prefix(self) -> Seq<char> {
        match self {
            ServiceError::NotFound(_) => "not found: "@,
            ServiceError::Database(_) => "database error: "@,
            ServiceError::Validation(_) => "validation error: "@,
            ServiceError::Internal(_) => "internal error: "@,
            ServiceError::RuntimeNotReady(_) => "runtime not ready: "@,
        }
    }

    /// The detail the error carries.
    pub open spec fn spec_detail(self) -> Seq<char> {
        match self {
            ServiceError::NotFound(s) => s@,
            ServiceError::Database(s) => s@,
            ServiceError::Validation(s) => s@,
            ServiceError::Internal(s) => s@,
            ServiceError::RuntimeNotReady(s) => s@,
        }
    }

    /// The human-readable text of the error: its kind, a colon, and the
    /// detail, e.g. `validation error: unknown table(s): x`.
    pub fn message(&self) -> (s: String)
        ensures
            s@ == self.spec_prefix() + self.spec_detail(),
    {
        let (prefix, detail) = match self {
            ServiceError::NotFound(d) => ("not found: ", d),
            ServiceError::Database(d) => ("database error: ", d),
            ServiceError::Validation(d) => ("validation error: ", d),
            ServiceError::Internal(d) => ("internal error: ", d),
            ServiceError::RuntimeNotReady(d) => ("runtime not ready: ", d),
        };
        let mut s = String::new();
        s.append(prefix);
        s.append(detail.as_str());
        s
    }
}

} // verus!
