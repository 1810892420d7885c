//! The client facade's own data: installation paths and its error type.
use vstd::prelude::*;
use vstd::string::StringExecFns;

use crate::db::connect::DB_FILENAME;
use crate::service::ServiceError;
use crate::util::{join_path, spec_join_path};

verus! {

/// Installation paths resolved from the user's data directory.
#[derive(Debug, Clone, PartialEq, Eq)]
pub struct Paths {
    pub data_dir: String,
    pub db_path: String,
}

impl Paths {
    /// The paths under a data directory: the directory itself and the
    /// database inside it.
    pub fn for_data_dir(data_dir: String) -> (p: Paths)
        ensures
            p.data_dir@ == data_dir@,
            p.db_path@ == spec_join_path(data_dir@, DB_FILENAME@),
    {
        let db_path = join_path(data_dir.as_str(), DB_FILENAME);
        Paths { data_dir, db_path }
    }
}

/// Error type of the client facade.
#[derive(Debug, Clone, PartialEq, Eq)]
pub enum CoreError {
    Database(String),
    Io(String),
    Service(ServiceError),
}

impl CoreError {
    /// The text of the error.
    pub open spec fn spec_message(self) -> Seq<char> {
        match self {
            CoreError::Database(m) => "database error: "@ + m@,
            CoreError::Io(m) => "io error: "@ + m@,
            CoreError::Service(e) => "service error: "@ + e.spec_prefix() + e.spec_detail(),
        }
    }

    /// The text of the error, e.g. `service error: not found: x`.
    pub fn message(&self) -> (s: String)
        ensures
            s@ == self.spec_message(),
    {
        match self {
            CoreError::Database(m) => {
                let mut s = "database error: ".to_string();
                s.append(m.as_str());
                s
            },
            CoreError::Io(m) => {
                let mut s = "io error: ".to_string();
                s.append(m.as_str());
                s
            },
            CoreError::Service(e) => {
                let mut s = "service error: ".to_string();
                let inner = e.message();
                s.append(inner.as_str());
                s
            },
        }
    }
}

} // verus!
