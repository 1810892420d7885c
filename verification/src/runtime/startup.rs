//! The runtime's startup sequence and shutdown, as decisions on the
//! runtime status: what each startup step's outcome records and which step
//! comes next, how a database failure is classified, and when a shutdown
//! proceeds. Opening the database, migrating, starting the engine and
//! waiting for signals are done by the caller.
use vstd::prelude::*;

use crate::runtime::status::{ErrorCode, HealthStatus, RuntimePhase, RuntimeStatus, StartupTraceEntry};
use crate::text::{chars_of, contains_chars, contains_seq, lowercase, to_lowercase};

verus! {

/// How long a shutdown waits for the engine to stop, in seconds.
pub const ENGINE_STOP_TIMEOUT_SECS: u64 = 5;

/// `c` is the error code of a database failure with text `err` in
/// `data_dir`: a stale lock when the text mentions a lock, denied permission
/// when it mentions permission, a corrupt database when it mentions
/// corruption (case-insensitively, in that order of precedence), each with
/// the data directory as its path; otherwise a generic database error
/// carrying the text.
pub open spec fn classified(err: Seq<char>, data_dir: Seq<char>, c: ErrorCode) -> bool {
    let lower = lowercase(err);
    if contains_seq(lower, "lock"@) {
        c matches ErrorCode::StaleLock { path } && path@ == data_dir
    } else if contains_seq(lower, "permission"@) {
        c matches ErrorCode::PermissionDenied { path } && path@ == data_dir
    } else if contains_seq(lower, "corrupt"@) {
        c matches ErrorCode::DatabaseCorrupt { path } && path@ == data_dir
    } else {
        c matches ErrorCode::DatabaseGeneric { source } && source@ == err
    }
}

/// The error code for a database that failed to open, from the failure's
/// text: a stale lock when it mentions a lock, denied permission when it
/// mentions permission, a corrupt database when it mentions corruption
/// (case-insensitively, in that order of precedence), otherwise a generic
/// database error carrying the text.
pub fn classify_db_error(err: &str, data_dir: &str) -> (c: ErrorCode)
    ensures
        classified(err@, data_dir@, c),
{
    let lower = to_lowercase(err);
    let lv = chars_of(lower.as_str());
    let lock = chars_of("lock");
    let permission = chars_of("permission");
    let corrupt = chars_of("corrupt");
    if contains_chars(lv.as_slice(), lock.as_slice()) {
        ErrorCode::StaleLock { path: data_dir.to_string() }
    } else if contains_chars(lv.as_slice(), permission.as_slice()) {
        ErrorCode::PermissionDenied { path: data_dir.to_string() }
    } else if contains_chars(lv.as_slice(), corrupt.as_slice()) {
        ErrorCode::DatabaseCorrupt { path: data_dir.to_string() }
    } else {
        ErrorCode::DatabaseGeneric { source: err.to_string() }
    }
}

/// The step a startup is waiting on.
#[derive(Debug, Clone, Copy, PartialEq, Eq, Structural)]
pub enum StartupStage {
    ConnectDatabase,
    RunMigrations,
    VerifySchema,
    StartEngine,
    StartSignalHandler,
    Finished,
}

/// The outcome of a startup step, with the time it took.
#[derive(Debug, Clone, PartialEq, Eq)]
pub enum StartupEvent {
    /// The database opened; the times at which connecting and connected
    /// were measured.
    DatabaseReady { connecting_ms: u64, connected_ms: u64 },
    DatabaseFailed { error: String },
    MigrationsDone { elapsed_ms: u64 },
    MigrationsFailed { error: String },
    SchemaVerified,
    SchemaIncomplete { error: String },
    EngineStarted { elapsed_ms: u64 },
    EngineFailed { error: String },
    SignalHandlerStarted { elapsed_ms: u64 },
}

/// The outcome belongs to the step.
pub open spec fn event_fits(stage: StartupStage, event: StartupEvent) -> bool {
    match stage {
        StartupStage::ConnectDatabase => event is DatabaseReady || event is DatabaseFailed,
        StartupStage::RunMigrations => event is MigrationsDone || event is MigrationsFailed,
        StartupStage::VerifySchema => event is SchemaVerified || event is SchemaIncomplete,
        StartupStage::StartEngine => event is EngineStarted || event is EngineFailed,
        StartupStage::StartSignalHandler => event is SignalHandlerStarted,
        StartupStage::Finished => false,
    }
}

/// `after` is `before` with `entries` appended to its trace and nothing
/// else changed but the phase and health as given.
pub open spec fn traced(
    before: RuntimeStatus,
    after: RuntimeStatus,
    entries: Seq<(RuntimePhase, u64)>,
) -> bool {
    &&& after.startup_trace@.len() == before.startup_trace@.len() + entries.len()
    &&& forall|k: int|
        0 <= k < before.startup_trace@.len() ==> #[trigger] after.startup_trace@[k]
            == before.startup_trace@[k]
    &&& forall|k: int|
        0 <= k < entries.len() ==> {
            let e = #[trigger] after.startup_trace@[before.startup_trace@.len() + k];
            e.phase == entries[k].0 && e.duration_ms == entries[k].1 && e.error is None
        }
    &&& after.error == before.error
    &&& after.started_at == before.started_at
}

/// Starts a startup: the configuration is loaded (a trace entry of no
/// duration) and the database is next.
pub fn begin_startup(status: &mut RuntimeStatus) -> (next: StartupStage)
    ensures
        next == StartupStage::ConnectDatabase,
        traced(*old(status), *final(status), seq![(RuntimePhase::ConfigLoaded, 0u64)]),
        final(status).phase == old(status).phase,
        final(status).health == old(status).health,
{
    status.add_trace_entry(StartupTraceEntry::new(RuntimePhase::ConfigLoaded, 0));
    StartupStage::ConnectDatabase
}

/// Records the outcome of a startup step and returns the next step. A
/// failure records its error code (the runtime fails) and ends the
/// startup: a database failure as classified by `classify_db_error`, a
/// migration failure as `MigrationFailed` of version 0 named `pending`, an
/// incomplete schema with the check's message, an engine that did not
/// start with its error. Success traces the step: the database connecting
/// and connected (moving to `DatabaseConnected`), validation, the engine
/// starting (moving to `EngineStarting`), and finally `Running`.
pub fn advance_startup(
    status: &mut RuntimeStatus,
    stage: StartupStage,
    data_dir: &str,
    event: StartupEvent,
) -> (next: StartupStage)
    requires
        event_fits(stage, event),
    ensures
        match event {
            StartupEvent::DatabaseReady { connecting_ms, connected_ms } => next
                == StartupStage::RunMigrations && traced(
                *old(status),
                *final(status),
                seq![
                    (RuntimePhase::DatabaseConnecting, connecting_ms),
                    (RuntimePhase::DatabaseConnected, connected_ms),
                ],
            ) && final(status).phase == RuntimePhase::DatabaseConnected && final(status).health
                == old(status).health,
            StartupEvent::DatabaseFailed { error } => {
                &&& next == StartupStage::Finished
                &&& final(status).phase == RuntimePhase::Failed
                &&& final(status).health == HealthStatus::Unhealthy
                &&& (final(status).error matches Some(e) && classified(error@, data_dir@, e.code)
                    && e.describes(e.code))
                &&& final(status).startup_trace@ == old(status).startup_trace@
            },
            StartupEvent::MigrationsDone { elapsed_ms } => next == StartupStage::VerifySchema
                && traced(*old(status), *final(status), seq![(RuntimePhase::Validating, elapsed_ms)])
                && final(status).phase == old(status).phase && final(status).health == old(
                status,
            ).health,
            StartupEvent::MigrationsFailed { error } => {
                &&& next == StartupStage::Finished
                &&& final(status).phase == RuntimePhase::Failed
                &&& final(status).health == HealthStatus::Unhealthy
                &&& final(status).startup_trace@ == old(status).startup_trace@
                &&& (final(status).error matches Some(e) && (e.code matches ErrorCode::MigrationFailed {
                    version,
                    name,
                    source,
                } && version == 0 && name@ == "pending"@ && source@ == error@))
            },
            StartupEvent::SchemaVerified => next == StartupStage::StartEngine && *final(status)
                == *old(status),
            StartupEvent::SchemaIncomplete { error } => {
                &&& next == StartupStage::Finished
                &&& final(status).phase == RuntimePhase::Failed
                &&& final(status).health == HealthStatus::Unhealthy
                &&& final(status).startup_trace@ == old(status).startup_trace@
                &&& (final(status).error matches Some(e) && (e.code matches ErrorCode::SchemaIncomplete {
                    missing_tables,
                } && missing_tables@.len() == 1 && missing_tables@[0]@ == error@))
            },
            StartupEvent::EngineStarted { elapsed_ms } => next == StartupStage::StartSignalHandler
                && traced(
                *old(status),
                *final(status),
                seq![(RuntimePhase::EngineStarting, elapsed_ms)],
            ) && final(status).phase == RuntimePhase::EngineStarting && final(status).health
                == old(status).health,
            StartupEvent::EngineFailed { error } => {
                &&& next == StartupStage::Finished
                &&& final(status).phase == RuntimePhase::Failed
                &&& final(status).health == HealthStatus::Unhealthy
                &&& final(status).startup_trace@ == old(status).startup_trace@
                &&& (final(status).error matches Some(e) && (e.code matches ErrorCode::EngineStartFailed {
                    source,
                } && source@ == error@))
            },
            StartupEvent::SignalHandlerStarted { elapsed_ms } => next == StartupStage::Finished
                && traced(*old(status), *final(status), seq![(RuntimePhase::Running, elapsed_ms)])
                && final(status).phase == RuntimePhase::Running && final(status).health
                == crate::runtime::status::HealthStatus::Healthy,
        },
{
    match event {
        StartupEvent::DatabaseReady { connecting_ms, connected_ms } => {
            status.add_trace_entry(
                StartupTraceEntry::new(RuntimePhase::DatabaseConnecting, connecting_ms),
            );
            status.transition_to(RuntimePhase::DatabaseConnected);
            status.add_trace_entry(
                StartupTraceEntry::new(RuntimePhase::DatabaseConnected, connected_ms),
            );
            StartupStage::RunMigrations
        },
        StartupEvent::DatabaseFailed { error } => {
            let code = classify_db_error(error.as_str(), data_dir);
            status.record_error(code);
            StartupStage::Finished
        },
        StartupEvent::MigrationsDone { elapsed_ms } => {
            status.add_trace_entry(StartupTraceEntry::new(RuntimePhase::Validating, elapsed_ms));
            StartupStage::VerifySchema
        },
        StartupEvent::MigrationsFailed { error } => {
            status.record_error(
                ErrorCode::MigrationFailed { version: 0, name: "pending".to_string(), source: error },
            );
            StartupStage::Finished
        },
        StartupEvent::SchemaVerified => StartupStage::StartEngine,
        StartupEvent::SchemaIncomplete { error } => {
            let mut missing: Vec<String> = Vec::new();
            missing.push(error);
            status.record_error(ErrorCode::SchemaIncomplete { missing_tables: missing });
            StartupStage::Finished
        },
        StartupEvent::EngineStarted { elapsed_ms } => {
            status.transition_to(RuntimePhase::EngineStarting);
            status.add_trace_entry(StartupTraceEntry::new(RuntimePhase::EngineStarting, elapsed_ms));
            StartupStage::StartSignalHandler
        },
        StartupEvent::EngineFailed { error } => {
            status.record_error(ErrorCode::EngineStartFailed { source: error });
            StartupStage::Finished
        },
        StartupEvent::SignalHandlerStarted { elapsed_ms } => {
            status.transition_to(RuntimePhase::Running);
            status.add_trace_entry(StartupTraceEntry::new(RuntimePhase::Running, elapsed_ms));
            StartupStage::Finished
        },
    }
}

/// Starts a graceful shutdown: moves to `Stopping` and returns `true`,
/// unless the runtime is already stopping or stopped (then nothing
/// changes and `false` is returned: the shutdown already happened or is
/// under way).
pub fn begin_shutdown(status: &mut RuntimeStatus) -> (proceed: bool)
    ensures
        proceed == !(old(status).phase == RuntimePhase::Stopping || old(status).phase
            == RuntimePhase::Stopped),
        proceed ==> final(status).phase == RuntimePhase::Stopping,
        !proceed ==> final(status).phase == old(status).phase,
        final(status).health == old(status).health,
        final(status).error == old(status).error,
        final(status).started_at == old(status).started_at,
        final(status).startup_trace@ == old(status).startup_trace@,
{
    if status.phase == RuntimePhase::Stopping || status.phase == RuntimePhase::Stopped {
        return false;
    }
    status.phase = RuntimePhase::Stopping;
    true
}

/// Ends a graceful shutdown (once the engine stopped or its stop timed
/// out): the runtime is `Stopped`.
pub fn finish_shutdown(status: &mut RuntimeStatus)
    ensures
        final(status).phase == RuntimePhase::Stopped,
        final(status).health == old(status).health,
        final(status).error == old(status).error,
        final(status).started_at == old(status).started_at,
        final(status).startup_trace@ == old(status).startup_trace@,
{
    status.phase = RuntimePhase::Stopped;
}

} // verus!
