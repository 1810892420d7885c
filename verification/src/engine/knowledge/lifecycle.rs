//! The knowledge engine's lifecycle (a single-instance running flag) and
//! the checks behind its project-scoped queries.
use vstd::prelude::*;
use vstd::string::StringExecFns;

use crate::engine::error::EngineError;
use crate::engine::knowledge::context::EngineState;

verus! {

/// Whether the engine runs. Starting a running engine, or stopping a
/// stopped one, is refused.
#[derive(Debug)]
pub struct Lifecycle {
    running: bool,
}

impl Lifecycle {
    /// Whether the engine runs.
    pub closed spec fn spec_running(&self) -> bool {
        self.running
    }

    /// A stopped engine.
    pub fn new() -> (l: Lifecycle)
        ensures
            !l.spec_running(),
    {
        Lifecycle { running: false }
    }

    /// Whether the engine runs.
    pub fn is_running(&self) -> (b: bool)
        ensures
            b == self.spec_running(),
    {
        self.running
    }

    /// Marks the engine running; refused when it already runs.
    pub fn start(&mut self) -> (r: Result<(), EngineError>)
        ensures
            final(self).spec_running(),
            old(self).spec_running() ==> r == Err::<(), EngineError>(EngineError::AlreadyRunning),
            !old(self).spec_running() ==> r is Ok,
    {
        if self.running {
            return Err(EngineError::AlreadyRunning);
        }
        self.running = true;
        Ok(())
    }

    /// Marks the engine stopped; refused when it is not running.
    pub fn stop(&mut self) -> (r: Result<(), EngineError>)
        ensures
            !final(self).spec_running(),
            !old(self).spec_running() ==> r == Err::<(), EngineError>(EngineError::NotRunning),
            old(self).spec_running() ==> r is Ok,
    {
        if !self.running {
            return Err(EngineError::NotRunning);
        }
        self.running = false;
        Ok(())
    }
}

/// Counts the active project's indexed files.
pub const COUNT_INDEXED_FILES: &'static str = "SELECT count() AS total FROM file_data WHERE project_id = $project_id GROUP ALL";

/// Lists the active project's indexed paths.
pub const LIST_INDEXED_PATHS: &'static str = "SELECT path FROM file_data WHERE project_id = $project_id";

/// The record id of the active project, for a project-scoped query:
/// refused when no project is active, or when its id is not a record id.
pub fn active_project_record(state: &EngineState) -> (r: Result<surrealdb_types::RecordId, EngineError>)
    ensures
        state.spec_project_id() is None ==> (r matches Err(EngineError::Internal(m)) && m@
            == "no active project"@),
        state.spec_project_id() matches Some(p) ==> (r is Ok <==> crate::util::record_id_parses(p)),
        state.spec_project_id() matches Some(p) ==> (r matches Ok(rid) ==> crate::util::parsed_record_id(p) == Some(rid)),
        state.spec_project_id() matches Some(p) ==> (r matches Err(e) ==> (e matches EngineError::Internal(m)
            && crate::text::starts_with(m@, "invalid project_id: "@))),
{
    match state.project_id() {
        None => Err(EngineError::Internal("no active project".to_string())),
        Some(pid) => match crate::util::record_id_value(pid) {
            Ok(rid) => Ok(rid),
            Err(e) => {
                let ghost prefix = "invalid project_id: "@;
                let mut m = "invalid project_id: ".to_string();
                m.append(e.reason.as_str());
                assert(m@.subrange(0, prefix.len() as int) =~= prefix);
                Err(EngineError::Internal(m))
            },
        },
    }
}

/// The paths of the listed records that have a string `path`, in order.
pub fn indexed_paths(paths: Vec<Option<String>>) -> (r: Vec<String>)
    ensures
        r@.map_values(|s: String| s@) == paths@.filter(|p: Option<String>| p is Some).map_values(
            |p: Option<String>| p->0@,
        ),
{
    let ghost orig = paths@;
    let ghost pred = |p: Option<String>| p is Some;
    let mut rest = paths;
    let mut out: Vec<String> = Vec::new();
    let ghost mut taken: int = 0;
    while rest.len() > 0
        invariant
            0 <= taken <= orig.len(),
            rest@ == orig.skip(taken),
            pred == (|p: Option<String>| p is Some),
            out@.map_values(|s: String| s@) == orig.take(taken).filter(pred).map_values(
                |p: Option<String>| p->0@,
            ),
        decreases rest@.len(),
    {
        let p = rest.remove(0);
        proof {
            assert(p == orig[taken]);
            assert(orig.take(taken + 1) =~= orig.take(taken).push(p));
            orig.take(taken).lemma_filter_push(p, pred);
            assert(rest@ =~= orig.skip(taken + 1));
            taken = taken + 1;
        }
        match p {
            Some(s) => {
                let ghost before = out@.map_values(|s: String| s@);
                let ghost sv = s@;
                out.push(s);
                assert(out@.map_values(|s: String| s@) =~= before.push(sv));
            },
            None => {},
        }
    }
    assert(orig.take(taken) =~= orig);
    out
}

} // verus!
