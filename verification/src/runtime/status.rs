//! Runtime phase, health, and error tracking.
use vstd::prelude::*;
use vstd::string::StringExecFns;

use crate::text::{decimal, join, u64_to_decimal, join_strings};

verus! {

/// Lifecycle phase of the Mercury Cortex runtime.
#[derive(Debug, Clone, Copy, PartialEq, Eq, Structural)]
pub enum RuntimePhase {
    ConfigLoaded,
    DatabaseConnecting,
    DatabaseConnected,
    Validating,
    EngineStarting,
    Running,
    Stopping,
    Stopped,
    Failed,
}

impl RuntimePhase {
    /// The phase is final: `Stopped` or `Failed`.
    pub open spec fn spec_is_terminal(self) -> bool {
        self == RuntimePhase::Stopped || self == RuntimePhase::Failed
    }

    /// Returns `true` if the phase is `Stopped` or `Failed`.
    pub fn is_terminal(&self) -> (b: bool)
        ensures
            b == self.spec_is_terminal(),
    {
        matches!(self, RuntimePhase::Stopped | RuntimePhase::Failed)
    }

    /// The display name of the phase (its variant name).
    pub open spec fn spec_name(self) -> Seq<char> {
        match self {
            RuntimePhase::ConfigLoaded => "ConfigLoaded"@,
            RuntimePhase::DatabaseConnecting => "DatabaseConnecting"@,
            RuntimePhase::DatabaseConnected => "DatabaseConnected"@,
            RuntimePhase::Validating => "Validating"@,
            RuntimePhase::EngineStarting => "EngineStarting"@,
            RuntimePhase::Running => "Running"@,
            RuntimePhase::Stopping => "Stopping"@,
            RuntimePhase::Stopped => "Stopped"@,
            RuntimePhase::Failed => "Failed"@,
        }
    }

    /// The display name of the phase, as printed in status reports.
    pub fn name(&self) -> (s: &'static str)
        ensures
            s@ == self.spec_name(),
    {
        match self {
            RuntimePhase::ConfigLoaded => "ConfigLoaded",
            RuntimePhase::DatabaseConnecting => "DatabaseConnecting",
            RuntimePhase::DatabaseConnected => "DatabaseConnected",
            RuntimePhase::Validating => "Validating",
            RuntimePhase::EngineStarting => "EngineStarting",
            RuntimePhase::Running => "Running",
            RuntimePhase::Stopping => "Stopping",
            RuntimePhase::Stopped => "Stopped",
            RuntimePhase::Failed => "Failed",
        }
    }
}

/// Overall health status of the runtime.
#[derive(Debug, Clone, Copy, PartialEq, Eq, Structural)]
pub enum HealthStatus {
    Healthy,
    Degraded,
    Unhealthy,
}

/// Categorised error codes for runtime failures.
#[derive(Debug, Clone)]
pub enum ErrorCode {
    HomeDirMissing,
    DataDirCreateFailed,
    SocketBindFailed,
    DatabaseCorrupt { path: String },
    StaleLock { path: String },
    PermissionDenied { path: String },
    DatabaseGeneric { source: String },
    MigrationFailed { version: u64, name: String, source: String },
    SchemaIncomplete { missing_tables: Vec<String> },
    EngineStartFailed { source: String },
}

/// The views of a list of owned strings.
pub open spec fn views(v: Seq<String>) -> Seq<Seq<char>> {
    v.map_values(|s: String| s@)
}

/// The view of an optional owned string.
pub open spec fn opt_view(o: Option<String>) -> Option<Seq<char>> {
    match o {
        Some(s) => Some(s@),
        None => None,
    }
}

impl ErrorCode {
    /// The human-readable message for the code.
    pub open spec fn spec_message(self) -> Seq<char> {
        match self {
            ErrorCode::HomeDirMissing => "$HOME is not set or the home directory cannot be resolved"@,
            ErrorCode::DataDirCreateFailed => "The Mercury Cortex data directory could not be created"@,
            ErrorCode::SocketBindFailed => "The Unix socket could not be bound (address in use or permissions)"@,
            ErrorCode::DatabaseCorrupt { path } => "The database at "@ + path@
                + " could not be opened — the WAL may be corrupted"@,
            ErrorCode::StaleLock { path } => "A stale lock file was found at "@ + path@
                + " and could not be cleared"@,
            ErrorCode::PermissionDenied { path } => "Permission denied accessing "@ + path@,
            ErrorCode::DatabaseGeneric { source } => "Database error: "@ + source@,
            ErrorCode::MigrationFailed { version, name, source } => "Migration v"@ + decimal(
                version as nat,
            ) + " ("@ + name@ + ") failed: "@ + source@,
            ErrorCode::SchemaIncomplete { missing_tables } => "Schema is incomplete — missing tables: "@
                + join(views(missing_tables@), ", "@),
            ErrorCode::EngineStartFailed { source } => "The knowledge engine failed to start: "@
                + source@,
        }
    }

    /// The suggested recovery action for the code.
    pub open spec fn spec_recovery(self) -> Seq<char> {
        match self {
            ErrorCode::HomeDirMissing => "Set $HOME to a writable directory and restart"@,
            ErrorCode::DataDirCreateFailed => "Check permissions on ~/.mercury and ensure the disk is not full"@,
            ErrorCode::SocketBindFailed => "Remove ~/.mercury/cortex/runtime.sock and restart"@,
            ErrorCode::DatabaseCorrupt { .. } => "The database is corrupted. Run 'mercury-cortex db repair' for recovery options, or restore from a backup. If no backup exists, run 'mercury-cortex setup --force' to recreate the database (this will lose all data)."@,
            ErrorCode::StaleLock { path } => "Remove "@ + path@ + "/LOCK manually and restart"@,
            ErrorCode::PermissionDenied { .. } => "Check read/write permissions on the database directory"@,
            ErrorCode::DatabaseGeneric { .. } => "Check the server logs for details and restart the server"@,
            ErrorCode::EngineStartFailed { .. } => "Check the server logs for details and restart the server"@,
            ErrorCode::MigrationFailed { .. } => "Run 'mercury-cortex migration apply' to retry, or check the migration file for errors"@,
            ErrorCode::SchemaIncomplete { .. } => "Run 'mercury-cortex setup' to reinitialize the schema"@,
        }
    }

    /// The short uppercase code string.
    pub open spec fn spec_code_str(self) -> Seq<char> {
        match self {
            ErrorCode::HomeDirMissing => "HOME_DIR_MISSING"@,
            ErrorCode::DataDirCreateFailed => "DATA_DIR_CREATE_FAILED"@,
            ErrorCode::SocketBindFailed => "SOCKET_BIND_FAILED"@,
            ErrorCode::DatabaseCorrupt { .. } => "DATABASE_CORRUPT"@,
            ErrorCode::StaleLock { .. } => "STALE_LOCK"@,
            ErrorCode::PermissionDenied { .. } => "PERMISSION_DENIED"@,
            ErrorCode::DatabaseGeneric { .. } => "DATABASE_ERROR"@,
            ErrorCode::MigrationFailed { .. } => "MIGRATION_FAILED"@,
            ErrorCode::SchemaIncomplete { .. } => "SCHEMA_INCOMPLETE"@,
            ErrorCode::EngineStartFailed { .. } => "ENGINE_START_FAILED"@,
        }
    }

    /// The underlying detail carried into a [`RuntimeError`]: the source
    /// text for source-carrying codes, `"path: <path>"` for path-carrying
    /// codes, nothing otherwise.
    pub open spec fn spec_source(self) -> Option<Seq<char>> {
        match self {
            ErrorCode::DatabaseGeneric { source } => Some(source@),
            ErrorCode::MigrationFailed { source, .. } => Some(source@),
            ErrorCode::EngineStartFailed { source } => Some(source@),
            ErrorCode::DatabaseCorrupt { path } => Some("path: "@ + path@),
            ErrorCode::StaleLock { path } => Some("path: "@ + path@),
            ErrorCode::PermissionDenied { path } => Some("path: "@ + path@),
            _ => None,
        }
    }

    /// Return a human-readable error message for this code.
    pub fn message(&self) -> (s: String)
        ensures
            s@ == self.spec_message(),
    {
        match self {
            ErrorCode::HomeDirMissing => String::from_str(
                "$HOME is not set or the home directory cannot be resolved",
            ),
            ErrorCode::DataDirCreateFailed => String::from_str(
                "The Mercury Cortex data directory could not be created",
            ),
            ErrorCode::SocketBindFailed => String::from_str(
                "The Unix socket could not be bound (address in use or permissions)",
            ),
            ErrorCode::DatabaseCorrupt { path } => {
                let mut s = String::from_str("The database at ");
                s.append(path.as_str());
                s.append(" could not be opened — the WAL may be corrupted");
                s
            },
            ErrorCode::StaleLock { path } => {
                let mut s = String::from_str("A stale lock file was found at ");
                s.append(path.as_str());
                s.append(" and could not be cleared");
                s
            },
            ErrorCode::PermissionDenied { path } => {
                let mut s = String::from_str("Permission denied accessing ");
                s.append(path.as_str());
                s
            },
            ErrorCode::DatabaseGeneric { source } => {
                let mut s = String::from_str("Database error: ");
                s.append(source.as_str());
                s
            },
            ErrorCode::MigrationFailed { version, name, source } => {
                let mut s = String::from_str("Migration v");
                let v = u64_to_decimal(*version);
                s.append(v.as_str());
                s.append(" (");
                s.append(name.as_str());
                s.append(") failed: ");
                s.append(source.as_str());
                s
            },
            ErrorCode::SchemaIncomplete { missing_tables } => {
                let mut s = String::from_str("Schema is incomplete — missing tables: ");
                let list = join_strings(missing_tables, ", ");
                s.append(list.as_str());
                s
            },
            ErrorCode::EngineStartFailed { source } => {
                let mut s = String::from_str("The knowledge engine failed to start: ");
                s.append(source.as_str());
                s
            },
        }
    }

    /// Return a suggested recovery action for this error code.
    pub fn recovery(&self) -> (s: String)
        ensures
            s@ == self.spec_recovery(),
    {
        match self {
            ErrorCode::HomeDirMissing => String::from_str("Set $HOME to a writable directory and restart"),
            ErrorCode::DataDirCreateFailed => String::from_str(
                "Check permissions on ~/.mercury and ensure the disk is not full",
            ),
            ErrorCode::SocketBindFailed => String::from_str(
                "Remove ~/.mercury/cortex/runtime.sock and restart",
            ),
            ErrorCode::DatabaseCorrupt { .. } => String::from_str(
                "The database is corrupted. Run 'mercury-cortex db repair' for recovery options, or restore from a backup. If no backup exists, run 'mercury-cortex setup --force' to recreate the database (this will lose all data).",
            ),
            ErrorCode::StaleLock { path } => {
                let mut s = String::from_str("Remove ");
                s.append(path.as_str());
                s.append("/LOCK manually and restart");
                s
            },
            ErrorCode::PermissionDenied { .. } => String::from_str(
                "Check read/write permissions on the database directory",
            ),
            ErrorCode::DatabaseGeneric { .. } | ErrorCode::EngineStartFailed { .. } => String::from_str(
                "Check the server logs for details and restart the server",
            ),
            ErrorCode::MigrationFailed { .. } => String::from_str(
                "Run 'mercury-cortex migration apply' to retry, or check the migration file for errors",
            ),
            ErrorCode::SchemaIncomplete { .. } => String::from_str(
                "Run 'mercury-cortex setup' to reinitialize the schema",
            ),
        }
    }

    /// Return a short uppercase code string (e.g. `"HOME_DIR_MISSING"`).
    pub fn code_str(&self) -> (s: &'static str)
        ensures
            s@ == self.spec_code_str(),
    {
        match self {
            ErrorCode::HomeDirMissing => "HOME_DIR_MISSING",
            ErrorCode::DataDirCreateFailed => "DATA_DIR_CREATE_FAILED",
            ErrorCode::SocketBindFailed => "SOCKET_BIND_FAILED",
            ErrorCode::DatabaseCorrupt { .. } => "DATABASE_CORRUPT",
            ErrorCode::StaleLock { .. } => "STALE_LOCK",
            ErrorCode::PermissionDenied { .. } => "PERMISSION_DENIED",
            ErrorCode::DatabaseGeneric { .. } => "DATABASE_ERROR",
            ErrorCode::MigrationFailed { .. } => "MIGRATION_FAILED",
            ErrorCode::SchemaIncomplete { .. } => "SCHEMA_INCOMPLETE",
            ErrorCode::EngineStartFailed { .. } => "ENGINE_START_FAILED",
        }
    }

    fn source_text(&self) -> (o: Option<String>)
        ensures
            opt_view(o) == self.spec_source(),
    {
        match self {
            ErrorCode::DatabaseGeneric { source } => Some(source.clone()),
            ErrorCode::MigrationFailed { source, .. } => Some(source.clone()),
            ErrorCode::EngineStartFailed { source } => Some(source.clone()),
            ErrorCode::DatabaseCorrupt { path } | ErrorCode::StaleLock { path }
            | ErrorCode::PermissionDenied { path } => {
                let mut s = String::from_str("path: ");
                s.append(path.as_str());
                Some(s)
            },
            _ => None,
        }
    }
}

/// A structured runtime error with code, message, and recovery hint.
#[derive(Debug, Clone)]
pub struct RuntimeError {
    pub code: ErrorCode,
    pub message: String,
    pub recovery: String,
    pub source: Option<String>,
}

impl RuntimeError {
    /// The error carries `code` together with the message, recovery hint and
    /// source detail that the code determines.
    pub open spec fn describes(self, code: ErrorCode) -> bool {
        &&& self.code == code
        &&& self.message@ == code.spec_message()
        &&& self.recovery@ == code.spec_recovery()
        &&& opt_view(self.source) == code.spec_source()
    }

    /// Build the structured error for a code.
    pub fn from_code(code: ErrorCode) -> (e: RuntimeError)
        ensures
            e.describes(code),
    {
        let message = code.message();
        let recovery = code.recovery();
        let source = code.source_text();
        RuntimeError { code, message, recovery, source }
    }
}

/// A single timing trace entry recorded during startup.
#[derive(Debug, Clone)]
pub struct StartupTraceEntry {
    pub phase: RuntimePhase,
    pub duration_ms: u64,
    pub error: Option<RuntimeError>,
}

impl StartupTraceEntry {
    /// Create a new trace entry for a phase and its duration.
    pub fn new(phase: RuntimePhase, duration_ms: u64) -> (e: Self)
        ensures
            e.phase == phase,
            e.duration_ms == duration_ms,
            e.error is None,
    {
        StartupTraceEntry { phase, duration_ms, error: None }
    }
}

/// Aggregate runtime status: phase, health, errors, and startup trace.
#[derive(Debug, Clone)]
pub struct RuntimeStatus {
    pub phase: RuntimePhase,
    pub health: HealthStatus,
    pub error: Option<RuntimeError>,
    pub started_at: u64,
    pub startup_trace: Vec<StartupTraceEntry>,
}

/// The kind of an error code: which variant it is, whatever its fields.
pub open spec fn code_kind(c: ErrorCode) -> int {
    match c {
        ErrorCode::HomeDirMissing => 0,
        ErrorCode::DataDirCreateFailed => 1,
        ErrorCode::SocketBindFailed => 2,
        ErrorCode::DatabaseCorrupt { .. } => 3,
        ErrorCode::StaleLock { .. } => 4,
        ErrorCode::PermissionDenied { .. } => 5,
        ErrorCode::DatabaseGeneric { .. } => 6,
        ErrorCode::MigrationFailed { .. } => 7,
        ErrorCode::SchemaIncomplete { .. } => 8,
        ErrorCode::EngineStartFailed { .. } => 9,
    }
}

/// An upper-case ASCII letter or `_`.
pub open spec fn is_code_char(c: char) -> bool {
    ('A' <= c && c <= 'Z') || c == '_'
}

/// A code string names the kind of an error and nothing else: two codes
/// have the same string exactly when they are of the same kind (their
/// fields do not matter), and a code string holds only upper-case letters
/// and `_`.
pub proof fn lemma_code_str_names_kind(a: ErrorCode, b: ErrorCode)
    ensures
        (a.spec_code_str() == b.spec_code_str()) <==> (code_kind(a) == code_kind(b)),
        forall|i: int|
            0 <= i < a.spec_code_str().len() ==> is_code_char(#[trigger] a.spec_code_str()[i]),
{
    reveal_strlit("HOME_DIR_MISSING");
    reveal_strlit("DATA_DIR_CREATE_FAILED");
    reveal_strlit("SOCKET_BIND_FAILED");
    reveal_strlit("DATABASE_CORRUPT");
    reveal_strlit("STALE_LOCK");
    reveal_strlit("PERMISSION_DENIED");
    reveal_strlit("DATABASE_ERROR");
    reveal_strlit("MIGRATION_FAILED");
    reveal_strlit("SCHEMA_INCOMPLETE");
    reveal_strlit("ENGINE_START_FAILED");
    let sa = a.spec_code_str();
    let sb = b.spec_code_str();
    if code_kind(a) != code_kind(b) {
        assert(sa.len() != sb.len() || sa[0] != sb[0] || sa[1] != sb[1]);
    }
}


impl RuntimeStatus {
    /// A fresh status: `ConfigLoaded`, `Degraded`, no error, empty trace.
    pub open spec fn is_fresh(self) -> bool {
        &&& self.phase == RuntimePhase::ConfigLoaded
        &&& self.health == HealthStatus::Degraded
        &&& self.error is None
        &&& self.startup_trace@.len() == 0
    }

    /// Create a new `RuntimeStatus` in the `ConfigLoaded` / `Degraded` state,
    /// stamped with the current wall-clock time in milliseconds since the Unix
    /// epoch (0 if the clock reads earlier than the epoch).
    pub fn new() -> (s: Self)
        ensures
            s.is_fresh(),
    {
        let now = crate::clock::system_time_now();
        let started_at = match crate::clock::since_unix_epoch(&now) {
            Some(d) => crate::clock::duration_millis(&d) as u64,
            None => 0,
        };
        Self::new_at(started_at)
    }

    /// A fresh status stamped with `started_at`.
    pub fn new_at(started_at: u64) -> (s: Self)
        ensures
            s.is_fresh(),
            s.started_at == started_at,
    {
        RuntimeStatus {
            phase: RuntimePhase::ConfigLoaded,
            health: HealthStatus::Degraded,
            error: None,
            started_at,
            startup_trace: Vec::new(),
        }
    }

    /// Advance the runtime to a new phase, updating health if `Running`.
    pub fn transition_to(&mut self, phase: RuntimePhase)
        ensures
            final(self).phase == phase,
            final(self).health == (if phase == RuntimePhase::Running {
                HealthStatus::Healthy
            } else {
                old(self).health
            }),
            final(self).error == old(self).error,
            final(self).started_at == old(self).started_at,
            final(self).startup_trace@ == old(self).startup_trace@,
    {
        self.phase = phase;
        if phase == RuntimePhase::Running {
            self.health = HealthStatus::Healthy;
        }
    }

    /// Record a fatal error, transitioning to `Failed` / `Unhealthy`.
    pub fn record_error(&mut self, code: ErrorCode)
        ensures
            final(self).phase == RuntimePhase::Failed,
            final(self).phase.spec_is_terminal(),
            final(self).health == HealthStatus::Unhealthy,
            final(self).error matches Some(e) && e.describes(code),
            final(self).started_at == old(self).started_at,
            final(self).startup_trace@ == old(self).startup_trace@,
    {
        self.health = HealthStatus::Unhealthy;
        self.phase = RuntimePhase::Failed;
        self.error = Some(RuntimeError::from_code(code));
    }

    /// Append a startup trace entry to the log.
    pub fn add_trace_entry(&mut self, entry: StartupTraceEntry)
        ensures
            final(self).startup_trace@ == old(self).startup_trace@.push(entry),
            final(self).phase == old(self).phase,
            final(self).health == old(self).health,
            final(self).error == old(self).error,
            final(self).started_at == old(self).started_at,
    {
        self.startup_trace.push(entry);
    }
}

impl Default for RuntimeStatus {
    fn default() -> (s: Self)
        ensures
            s.is_fresh(),
    {
        Self::new()
    }
}

} // verus!
