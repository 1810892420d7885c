use mercury_cortex_core::engine::error::EngineError;
use mercury_cortex_core::engine::index::cache::LruCache;
use mercury_cortex_core::engine::index::hash::{hash_bytes, hex_encode};
use mercury_cortex_core::engine::index::importer::{
    created_file_id, finish_import, is_metadata_file, plan_import, should_clear_staging,
    validate_temp_dir, walk_keeps, ImportResult, ImportStep,
};
use mercury_cortex_core::engine::index::mcignore::McIgnore;
use mercury_cortex_core::engine::index::runtime_index::{FileEntry, RuntimeIndex};
use mercury_cortex_core::engine::knowledge::context::EngineState;
use mercury_cortex_core::engine::knowledge::event_log::EventLog;
use mercury_cortex_core::engine::knowledge::lifecycle::{
    active_project_record, indexed_paths, Lifecycle,
};
use mercury_cortex_core::service::ServiceError;
use mercury_cortex_core::util::{RecordKeyText, RecordRef, RecordValue};

#[test]
fn engine_error_texts() {
    assert_eq!(EngineError::AlreadyRunning.message(), "engine is already running");
    assert_eq!(EngineError::NotRunning.message(), "engine is not running");
    assert_eq!(
        EngineError::Internal("boom".to_string()).message(),
        "internal error: boom"
    );
    assert_eq!(
        EngineError::Io("gone".to_string()).to_service_error(),
        ServiceError::Internal("I/O error: gone".to_string())
    );
}

#[test]
fn sha256_hex_digests() {
    assert_eq!(
        hash_bytes(b""),
        "e3b0c44298fc1c149afbf4c8996fb92427ae41e4649b934ca495991b7852b855"
    );
    assert_eq!(
        hash_bytes(b"abc"),
        "ba7816bf8f01cfea414140de5dae2223b00361a396177a9cb410ff61f20015ad"
    );
    assert_eq!(hex_encode(&[0x00, 0x0f, 0xa5, 0xff]), "000fa5ff");
}

#[test]
fn lru_cache_evicts_least_recent() {
    let mut c: LruCache<u32> = LruCache::new(2);
    c.put("a".to_string(), 1);
    c.put("b".to_string(), 2);
    assert_eq!(c.get("a"), Some(1));
    c.put("c".to_string(), 3);
    assert_eq!(c.get("b"), None);
    assert_eq!(c.get("a"), Some(1));
    assert_eq!(c.get("c"), Some(3));
    c.put("a".to_string(), 10);
    assert_eq!(c.get("a"), Some(10));
    assert_eq!(c.len(), 2);
}

#[test]
fn mcignore_last_match_wins() {
    let lines: Vec<String> = ["# comment", "", "*.log", "!keep.log", "build/", "**/tmp"]
        .iter()
        .map(|s| s.to_string())
        .collect();
    let m = McIgnore::from_lines(&lines);
    assert!(m.is_ignored("app.log", false));
    assert!(!m.is_ignored("keep.log", false));
    assert!(m.is_ignored("build", true));
    assert!(m.is_ignored("build/out.o", false));
    assert!(m.is_ignored("a/b/tmp", true));
    assert!(!m.is_ignored("src/main.rs", false));
    assert!(!McIgnore::new().is_ignored("anything", false));
}

#[test]
fn runtime_index_replaces_by_path() {
    let t = std::time::SystemTime::UNIX_EPOCH;
    let entry = |id: &str, path: &str| FileEntry {
        project_id: "projects:p".to_string(),
        file_data_id: id.to_string(),
        relative_path: path.to_string(),
        content_hash: "h".to_string(),
        last_modified: t,
    };
    let mut idx = RuntimeIndex::new();
    assert!(idx.get("a.rs").is_none());
    idx.insert(entry("file_data:1", "a.rs"));
    idx.insert(entry("file_data:2", "b.rs"));
    idx.insert(entry("file_data:3", "a.rs"));
    assert_eq!(idx.get("a.rs").unwrap().file_data_id, "file_data:3");
    assert_eq!(idx.get("b.rs").unwrap().file_data_id, "file_data:2");
    assert!(idx.get("c.rs").is_none());
}

#[test]
fn lifecycle_guards_start_and_stop() {
    let mut l = Lifecycle::new();
    assert!(!l.is_running());
    assert_eq!(l.stop(), Err(EngineError::NotRunning));
    assert_eq!(l.start(), Ok(()));
    assert_eq!(l.start(), Err(EngineError::AlreadyRunning));
    assert!(l.is_running());
    assert_eq!(l.stop(), Ok(()));
    assert!(!l.is_running());
}

#[test]
fn engine_state_tracks_the_project() {
    let mut s = EngineState::new();
    assert!(!s.has_project());
    assert!(matches!(
        active_project_record(&s),
        Err(EngineError::Internal(m)) if m == "no active project"
    ));
    s.set_project("projects:p".to_string(), "/root".to_string());
    assert!(s.has_project());
    assert_eq!(s.project_id(), Some("projects:p"));
    assert!(active_project_record(&s).is_ok());
    s.clear_project();
    assert_eq!(s.project_id(), None);
}

#[test]
fn indexed_paths_keep_string_paths() {
    assert_eq!(
        indexed_paths(vec![Some("a".to_string()), None, Some("b".to_string())]),
        vec!["a".to_string(), "b".to_string()]
    );
}

#[test]
fn event_log_keeps_recent_entries() {
    let mut log = EventLog::new();
    for i in 0..1005 {
        log.push("event".to_string(), i.to_string());
    }
    assert_eq!(log.len(), 1000);
    let recent = log.recent_entries(2);
    assert_eq!(recent.len(), 2);
    assert_eq!(recent[0].details, "1003");
    assert_eq!(recent[1].details, "1004");
}

#[test]
fn temp_dir_validation() {
    assert_eq!(
        validate_temp_dir(""),
        Err(EngineError::Internal("temp_dir is empty".to_string()))
    );
    assert_eq!(
        validate_temp_dir("a\0b"),
        Err(EngineError::Internal(
            "temp_dir contains null bytes: a\0b".to_string()
        ))
    );
    assert_eq!(validate_temp_dir("/tmp/x"), Ok(()));
}

#[test]
fn metadata_file_selection() {
    assert!(is_metadata_file(true, "a.json"));
    assert!(is_metadata_file(true, ".x.json"));
    assert!(!is_metadata_file(true, ".json"));
    assert!(!is_metadata_file(true, "a.jsonl"));
    assert!(!is_metadata_file(false, "a.json"));
    assert!(walk_keeps(0, ".temp"));
    assert!(!walk_keeps(1, ".hidden"));
    assert!(walk_keeps(1, "visible"));
}

#[test]
fn import_planning() {
    let m = McIgnore::from_lines(&vec!["*.log".to_string()]);
    match plan_import("/root", "../escape.rs", &m) {
        ImportStep::Reject(r) => {
            assert!(!r.success);
            assert_eq!(
                r.error,
                Some(
                    "path escapes project root (must be relative and inside /root): ../escape.rs"
                        .to_string()
                )
            );
        }
        other => panic!("unexpected {other:?}"),
    }
    assert_eq!(
        plan_import("/root", "debug.log", &m),
        ImportStep::Ignored(ImportResult::succeeded("debug.log"))
    );
    assert_eq!(
        plan_import("/root", "src/a.rs", &m),
        ImportStep::Store {
            absolute_path: "/root/src/a.rs".to_string()
        }
    );
    assert_eq!(
        finish_import("a.rs", Err("database error: x".to_string())).error,
        Some("database error: x".to_string())
    );
    assert!(!should_clear_staging(&vec![]));
    assert!(should_clear_staging(&vec![ImportResult::succeeded("a")]));
    assert!(!should_clear_staging(&vec![
        ImportResult::succeeded("a"),
        ImportResult::failed("b", "no".to_string())
    ]));
    assert_eq!(
        ImportResult::invalid_json("x.json", "eof").error,
        Some("invalid JSON: eof".to_string())
    );
    let rid = RecordValue::Record(RecordRef {
        table: "file_data".to_string(),
        key: RecordKeyText::Text("f".to_string()),
    });
    assert_eq!(created_file_id(Some(&rid)), Ok("file_data:f".to_string()));
    assert_eq!(
        created_file_id(None),
        Err(EngineError::Internal("CREATE returned no records".to_string()))
    );
}

#[test]
fn uptime_is_zero_before_start() {
    let mut state = EngineState::new();
    assert_eq!(state.uptime(), std::time::Duration::ZERO);
    state.set_started_at(std::time::Instant::now());
    state.clear_started_at();
    assert_eq!(state.uptime(), std::time::Duration::ZERO);
}
