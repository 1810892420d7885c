//! Runtime configuration, and the answer of a runtime that is not ready.
use vstd::prelude::*;

use crate::runtime::status::RuntimePhase;
use crate::service::ServiceError;
use crate::util::{join_path, spec_join_path};

verus! {

/// Runtime configuration — resolved once at startup.
#[derive(Debug, Clone)]
pub struct RuntimeConfig {
    pub data_dir: String,
    pub socket_path: String,
}

impl RuntimeConfig {
    /// The configuration rooted at `data_dir`: the IPC socket is
    /// `runtime.sock` inside it.
    pub fn new(data_dir: String) -> (c: Self)
        ensures
            c.data_dir@ == data_dir@,
            c.socket_path@ == spec_join_path(data_dir@, "runtime.sock"@),
    {
        let socket_path = join_path(data_dir.as_str(), "runtime.sock");
        RuntimeConfig { data_dir, socket_path }
    }
}

/// The error of a request for the database or the engine before the
/// runtime has one: the runtime is not ready, in the phase it is in.
pub fn not_ready(phase: RuntimePhase) -> (e: ServiceError)
    ensures
        e matches ServiceError::RuntimeNotReady(m) && m@ == phase.spec_name(),
{
    ServiceError::RuntimeNotReady(phase.name().to_string())
}

} // verus!
