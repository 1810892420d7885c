use mercury_cortex_core::client::{CoreError, Paths};
use mercury_cortex_core::runtime::context::RuntimeConfig;
use mercury_cortex_core::runtime::startup::{
    advance_startup, begin_shutdown, begin_startup, classify_db_error, finish_shutdown,
    StartupEvent, StartupStage,
};
use mercury_cortex_core::runtime::status::{
    ErrorCode, HealthStatus, RuntimePhase, RuntimeStatus, StartupTraceEntry,
};
use mercury_cortex_core::service::ServiceError;

#[test]
fn error_code_texts() {
    let e = ErrorCode::MigrationFailed {
        version: 3,
        name: "create_file_data_table".to_string(),
        source: "boom".to_string(),
    };
    assert_eq!(e.code_str(), "MIGRATION_FAILED");
    assert_eq!(e.message(), "Migration v3 (create_file_data_table) failed: boom");
    let s = ErrorCode::SchemaIncomplete {
        missing_tables: vec!["users".to_string(), "owns".to_string()],
    };
    assert_eq!(s.message(), "Schema is incomplete — missing tables: users, owns");
    assert_eq!(
        ErrorCode::StaleLock {
            path: "/d".to_string()
        }
        .message(),
        "A stale lock file was found at /d and could not be cleared"
    );
}

#[test]
fn status_transitions() {
    let mut s = RuntimeStatus::new_at(7);
    assert_eq!(s.phase, RuntimePhase::ConfigLoaded);
    assert_eq!(s.health, HealthStatus::Degraded);
    s.add_trace_entry(StartupTraceEntry::new(RuntimePhase::ConfigLoaded, 0));
    s.transition_to(RuntimePhase::Running);
    assert_eq!(s.health, HealthStatus::Healthy);
    s.record_error(ErrorCode::HomeDirMissing);
    assert_eq!(s.phase, RuntimePhase::Failed);
    assert!(s.phase.is_terminal());
    assert_eq!(s.health, HealthStatus::Unhealthy);
    assert_eq!(s.error.as_ref().unwrap().message, ErrorCode::HomeDirMissing.message());
    assert_eq!(s.startup_trace.len(), 1);
    assert_eq!(s.started_at, 7);
}

#[test]
fn database_failures_are_classified() {
    assert!(matches!(
        classify_db_error("Resource temporarily unavailable: LOCK held", "/d"),
        ErrorCode::StaleLock { path } if path == "/d"
    ));
    assert!(matches!(
        classify_db_error("Permission denied (os error 13)", "/d"),
        ErrorCode::PermissionDenied { .. }
    ));
    assert!(matches!(
        classify_db_error("file is CORRUPT", "/d"),
        ErrorCode::DatabaseCorrupt { .. }
    ));
    assert!(matches!(
        classify_db_error("other", "/d"),
        ErrorCode::DatabaseGeneric { source } if source == "other"
    ));
}

#[test]
fn clean_startup_reaches_running() {
    let mut s = RuntimeStatus::new_at(0);
    let mut stage = begin_startup(&mut s);
    assert_eq!(stage, StartupStage::ConnectDatabase);
    let events = vec![
        StartupEvent::DatabaseReady {
            connecting_ms: 3,
            connected_ms: 4,
        },
        StartupEvent::MigrationsDone { elapsed_ms: 5 },
        StartupEvent::SchemaVerified,
        StartupEvent::EngineStarted { elapsed_ms: 6 },
        StartupEvent::SignalHandlerStarted { elapsed_ms: 1 },
    ];
    for e in events {
        stage = advance_startup(&mut s, stage, "/d", e);
    }
    assert_eq!(stage, StartupStage::Finished);
    assert_eq!(s.phase, RuntimePhase::Running);
    assert_eq!(s.health, HealthStatus::Healthy);
    let phases: Vec<RuntimePhase> = s.startup_trace.iter().map(|t| t.phase).collect();
    assert_eq!(
        phases,
        vec![
            RuntimePhase::ConfigLoaded,
            RuntimePhase::DatabaseConnecting,
            RuntimePhase::DatabaseConnected,
            RuntimePhase::Validating,
            RuntimePhase::EngineStarting,
            RuntimePhase::Running
        ]
    );
    assert!(s.error.is_none());
}

#[test]
fn failed_migration_stops_startup() {
    let mut s = RuntimeStatus::new_at(0);
    let stage = begin_startup(&mut s);
    let stage = advance_startup(
        &mut s,
        stage,
        "/d",
        StartupEvent::DatabaseReady {
            connecting_ms: 0,
            connected_ms: 0,
        },
    );
    let stage = advance_startup(
        &mut s,
        stage,
        "/d",
        StartupEvent::MigrationsFailed {
            error: "bad".to_string(),
        },
    );
    assert_eq!(stage, StartupStage::Finished);
    assert_eq!(s.phase, RuntimePhase::Failed);
    assert_eq!(s.health, HealthStatus::Unhealthy);
    assert_eq!(
        s.error.unwrap().message,
        "Migration v0 (pending) failed: bad"
    );
}

#[test]
fn shutdown_happens_once() {
    let mut s = RuntimeStatus::new_at(0);
    s.transition_to(RuntimePhase::Running);
    assert!(begin_shutdown(&mut s));
    assert_eq!(s.phase, RuntimePhase::Stopping);
    assert!(!begin_shutdown(&mut s));
    finish_shutdown(&mut s);
    assert_eq!(s.phase, RuntimePhase::Stopped);
    assert!(!begin_shutdown(&mut s));
}

#[test]
fn runtime_config_and_paths() {
    let c = RuntimeConfig::new("/data".to_string());
    assert_eq!(c.socket_path, "/data/runtime.sock");
    let p = Paths::for_data_dir("/data".to_string());
    assert_eq!(p.db_path, "/data/mercury_cortex_global_knowledge.db");
    assert_eq!(
        CoreError::Service(ServiceError::Validation("x".to_string())).message(),
        "service error: validation error: x"
    );
    assert_eq!(CoreError::Io("e".to_string()).message(), "io error: e");
}

#[test]
fn failed_database_open_records_the_classified_code() {
    let mut s = RuntimeStatus::new_at(0);
    let stage = begin_startup(&mut s);
    let stage = advance_startup(
        &mut s,
        stage,
        "/data",
        StartupEvent::DatabaseFailed {
            error: "Permission denied (os error 13)".to_string(),
        },
    );
    assert_eq!(stage, StartupStage::Finished);
    assert_eq!(s.phase, RuntimePhase::Failed);
    assert_eq!(s.health, HealthStatus::Unhealthy);
    assert!(matches!(
        s.error.unwrap().code,
        ErrorCode::PermissionDenied { path } if path == "/data"
    ));
}

#[test]
fn code_strings_name_the_kind() {
    let a = ErrorCode::StaleLock { path: "/a".to_string() };
    let b = ErrorCode::StaleLock { path: "/b".to_string() };
    assert_eq!(a.code_str(), b.code_str());
    assert_ne!(a.code_str(), ErrorCode::HomeDirMissing.code_str());
    assert!(a.code_str().chars().all(|c| c.is_ascii_uppercase() || c == '_'));
}
