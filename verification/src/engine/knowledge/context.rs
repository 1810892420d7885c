//! Shared runtime state for the Knowledge Engine.
use vstd::prelude::*;

use crate::clock::{duration_from_millis, duration_of_millis, elapsed_since};

verus! {

/// Dynamic runtime state shared across engine components: when the engine
/// started (if it is running) and the active project (if one is loaded).
#[derive(Debug)]
pub struct EngineState {
    started_at: Option<std::time::Instant>,
    project_id: Option<String>,
    project_root: Option<String>,
}

impl EngineState {
    /// The start time, if the engine is running.
    pub closed spec fn spec_started_at(&self) -> Option<std::time::Instant> {
        self.started_at
    }

    /// The active project's record id, if a project is active.
    pub closed spec fn spec_project_id(&self) -> Option<Seq<char>> {
        crate::runtime::status::opt_view(self.project_id)
    }

    /// The active project's root path, if a project is active.
    pub closed spec fn spec_project_root(&self) -> Option<Seq<char>> {
        crate::runtime::status::opt_view(self.project_root)
    }

    /// Create a new engine state: not started, no project.
    pub fn new() -> (s: Self)
        ensures
            s.spec_started_at() is None,
            s.spec_project_id() is None,
            s.spec_project_root() is None,
    {
        EngineState { started_at: None, project_id: None, project_root: None }
    }

    /// Returns the elapsed wall-clock time since the engine started, or a
    /// zero span (0 ms) if the engine is not running. The elapsed time is
    /// read from the clock, so nothing is stated of it.
    pub fn uptime(&self) -> (d: std::time::Duration)
        ensures
            self.spec_started_at() is None ==> d == duration_of_millis(0),
    {
        match &self.started_at {
            Some(t) => elapsed_since(t),
            None => duration_from_millis(0),
        }
    }

    /// Records the engine start time.
    pub fn set_started_at(&mut self, now: std::time::Instant)
        ensures
            final(self).spec_started_at() == Some(now),
            final(self).spec_project_id() == old(self).spec_project_id(),
            final(self).spec_project_root() == old(self).spec_project_root(),
    {
        self.started_at = Some(now);
    }

    /// Clears the start time.
    pub fn clear_started_at(&mut self)
        ensures
            final(self).spec_started_at() is None,
            final(self).spec_project_id() == old(self).spec_project_id(),
            final(self).spec_project_root() == old(self).spec_project_root(),
    {
        self.started_at = None;
    }

    /// Sets the active project identity.
    pub fn set_project(&mut self, project_id: String, project_root: String)
        ensures
            final(self).spec_project_id() == Some(project_id@),
            final(self).spec_project_root() == Some(project_root@),
            final(self).spec_started_at() == old(self).spec_started_at(),
    {
        self.project_id = Some(project_id);
        self.project_root = Some(project_root);
    }

    /// Clears the active project identity.
    pub fn clear_project(&mut self)
        ensures
            final(self).spec_project_id() is None,
            final(self).spec_project_root() is None,
            final(self).spec_started_at() == old(self).spec_started_at(),
    {
        self.project_id = None;
        self.project_root = None;
    }

    /// Returns the project ID, if a project is active.
    pub fn project_id(&self) -> (r: Option<&str>)
        ensures
            match r {
                Some(s) => self.spec_project_id() == Some(s@),
                None => self.spec_project_id() is None,
            },
    {
        match &self.project_id {
            Some(s) => Some(s.as_str()),
            None => None,
        }
    }

    /// Returns the project root path, if a project is active.
    pub fn project_root(&self) -> (r: Option<&String>)
        ensures
            match r {
                Some(s) => self.spec_project_root() == Some(s@),
                None => self.spec_project_root() is None,
            },
    {
        match &self.project_root {
            Some(s) => Some(s),
            None => None,
        }
    }

    /// Returns `true` if a project is currently active.
    pub fn has_project(&self) -> (b: bool)
        ensures
            b == self.spec_project_id() is Some,
    {
        self.project_id.is_some()
    }
}

impl Default for EngineState {
    fn default() -> (s: Self)
        ensures
            s.spec_started_at() is None,
            s.spec_project_id() is None,
            s.spec_project_root() is None,
    {
        Self::new()
    }
}

/// Snapshot of engine state for status queries.
#[derive(Debug, Clone)]
pub struct EngineInfo {
    pub version: String,
    pub running: bool,
    /// Wall-clock uptime in milliseconds.
    pub uptime_ms: u128,
}

/// Status of the active project.
#[derive(Debug, Clone)]
pub struct ProjectStatus {
    pub project_id: String,
    pub project_root: Option<String>,
    pub uptime: std::time::Duration,
}

} // verus!
