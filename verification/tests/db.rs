use mercury_cortex_core::db::backup::{
    backup_layout, backup_name, is_backup_name, restore_layout, select_backup_names,
};
use mercury_cortex_core::db::connect::{
    connection_address, percent_encode, resolve_data_dir, resolve_encryption_key, DataDirError,
    RetryConfig,
};
use mercury_cortex_core::db::export::InfoReply;
use mercury_cortex_core::db::pool::{BreakerState, CircuitBreaker};
use mercury_cortex_core::db::reset::{
    count_sql, delete_sql, extract_count, reset_targets, resettable_tables, ResetMode,
};
use mercury_cortex_core::db::retry::{
    backoff_delay_ms, is_transient_error, reset_shared_breaker, AttemptEnd, AttemptStart,
    RetryRun,
};
use mercury_cortex_core::service::ServiceError;

#[test]
fn percent_encode_keeps_unreserved_bytes() {
    assert_eq!(percent_encode("AZaz09-._~"), "AZaz09-._~");
    assert_eq!(percent_encode("a b/c"), "a%20b%2Fc");
    assert_eq!(percent_encode("é"), "%C3%A9");
    assert_eq!(percent_encode(""), "");
}

#[test]
fn percent_encoding_cannot_break_a_connection_string() {
    let encoded = percent_encode("k?e&y=1#x y");
    assert_eq!(encoded, "k%3Fe%26y%3D1%23x%20y");
    assert!(encoded
        .chars()
        .all(|c| c.is_ascii_alphanumeric() || "-._~%".contains(c)));
}

#[test]
fn data_dir_resolution_prefers_the_override() {
    assert_eq!(
        resolve_data_dir(Some("/data".to_string()), Some("/home/u".to_string())),
        Ok("/data".to_string())
    );
    assert_eq!(
        resolve_data_dir(None, Some("/home/u".to_string())),
        Ok("/home/u/.mercury/cortex".to_string())
    );
    assert_eq!(
        resolve_data_dir(Some(String::new()), Some("/home/u".to_string())),
        Err(DataDirError::EmptyOverride)
    );
    assert_eq!(resolve_data_dir(None, None), Err(DataDirError::NoHome));
}

#[test]
fn retry_config_default_and_delays() {
    let c = RetryConfig::default();
    assert_eq!(c.max_retries, 3);
    assert_eq!(c.base_delay_ms, 1000);
    assert_eq!(c.delay_before_attempt(0), 0);
    assert_eq!(c.delay_before_attempt(1), 1000);
    assert_eq!(c.delay_before_attempt(2), 2000);
    assert_eq!(c.delay_before_attempt(3), 4000);
}

#[test]
fn backoff_doubles_per_retry() {
    assert_eq!(backoff_delay_ms(100, 0), 0);
    assert_eq!(backoff_delay_ms(100, 1), 100);
    assert_eq!(backoff_delay_ms(100, 2), 200);
    assert_eq!(backoff_delay_ms(100, 3), 400);
}

#[test]
fn encryption_key_prefers_a_non_blank_file() {
    assert_eq!(
        resolve_encryption_key(Some("  secret \n".to_string()), Some("env".to_string())),
        Some("secret".to_string())
    );
    assert_eq!(
        resolve_encryption_key(Some(" \n".to_string()), Some("env".to_string())),
        Some("env".to_string())
    );
    assert_eq!(resolve_encryption_key(None, None), None);
}

#[test]
fn connection_address_appends_encoded_key() {
    assert_eq!(connection_address("/d/db", None), "/d/db");
    assert_eq!(connection_address("/d/db", Some("")), "/d/db");
    assert_eq!(
        connection_address("/d/db", Some("k y")),
        "/d/db?encryption_key=k%20y"
    );
}

#[test]
fn breaker_opens_after_three_failures() {
    let mut b = CircuitBreaker::new();
    assert_eq!(b.state(), BreakerState::Closed);
    b.record_failure();
    b.record_failure();
    assert_eq!(b.state(), BreakerState::Closed);
    assert_eq!(b.failure_count(), 2);
    b.record_failure();
    assert_eq!(b.state(), BreakerState::Open);
    assert!(!b.allow_request_after(false));
    assert!(b.allow_request_after(true));
    assert_eq!(b.state(), BreakerState::HalfOpen);
    b.record_success();
    assert_eq!(b.state(), BreakerState::Closed);
    assert_eq!(b.failure_count(), 0);
}

#[test]
fn half_open_failure_reopens() {
    let mut b = CircuitBreaker::new();
    for _ in 0..3 {
        b.record_failure();
    }
    assert!(b.allow_request_after(true));
    b.record_failure();
    assert_eq!(b.state(), BreakerState::Open);
    reset_shared_breaker(&mut b);
    assert_eq!(b.state(), BreakerState::Closed);
    assert_eq!(b.failure_count(), 0);
}

#[test]
fn transient_errors_are_recognised() {
    assert!(is_transient_error("Database LOCKED"));
    assert!(is_transient_error("connection reset"));
    assert!(is_transient_error("operation Timeout"));
    assert!(is_transient_error("please retry"));
    assert!(!is_transient_error("syntax error"));
}

#[test]
fn retry_run_gives_up_after_the_last_attempt() {
    let mut b = CircuitBreaker::new();
    let mut run = RetryRun::new();
    assert_eq!(run.start_attempt(&mut b), AttemptStart::Proceed { delay_ms: 0 });
    assert_eq!(run.finish_attempt(&mut b, Some(true)), AttemptEnd::Retry);
    assert_eq!(run.attempt(), 1);
    assert_eq!(run.start_attempt(&mut b), AttemptStart::Proceed { delay_ms: 100 });
    assert_eq!(run.finish_attempt(&mut b, Some(false)), AttemptEnd::GaveUp);
    let mut ok = RetryRun::new();
    assert_eq!(ok.finish_attempt(&mut b, None), AttemptEnd::Succeeded);
}

#[test]
fn retry_run_is_rejected_by_an_open_breaker() {
    let mut b = CircuitBreaker::new();
    let mut run = RetryRun::new();
    for _ in 0..3 {
        assert_eq!(run.finish_attempt(&mut b, Some(true)), AttemptEnd::Retry);
    }
    assert_eq!(b.state(), BreakerState::Open);
    assert_eq!(run.start_attempt(&mut b), AttemptStart::Rejected);
}

#[test]
fn reset_targets_keep_canonical_order() {
    assert_eq!(reset_targets(&ResetMode::All).len(), 9);
    let chosen = reset_targets(&ResetMode::Selected(vec![
        "owns".to_string(),
        "nope".to_string(),
        "users".to_string(),
    ]));
    assert_eq!(chosen, vec!["users", "owns"]);
    assert!(reset_targets(&ResetMode::Selected(vec![])).is_empty());
}

#[test]
fn resettable_tables_are_the_present_schema_tables() {
    let info = InfoReply::Object(Some(vec![
        "_migrations".to_string(),
        "projects".to_string(),
        "users".to_string(),
        "ad_hoc".to_string(),
    ]));
    assert_eq!(resettable_tables(&info), Ok(vec!["users", "projects"]));
    assert_eq!(
        resettable_tables(&InfoReply::Other),
        Err(ServiceError::Internal(
            "INFO FOR DB returned unexpected format".to_string()
        ))
    );
}

#[test]
fn reset_statements_and_counts() {
    assert_eq!(count_sql("users"), "SELECT count() AS n FROM users GROUP ALL");
    assert_eq!(delete_sql("users"), "DELETE FROM users");
    assert_eq!(extract_count(Some(12)), 12);
    assert_eq!(extract_count(None), 0);
    assert_eq!(extract_count(Some(-1)), u64::MAX);
}

#[test]
fn backup_names_and_listing() {
    assert_eq!(backup_name(42), "mercury_cortex_global_knowledge.db.42");
    assert!(is_backup_name("mercury_cortex_global_knowledge.db.17"));
    assert!(!is_backup_name("mercury_cortex_global_knowledge.db"));
    assert!(!is_backup_name("other"));
    let names = vec![
        "mercury_cortex_global_knowledge.db.9".to_string(),
        "junk".to_string(),
        "mercury_cortex_global_knowledge.db.10".to_string(),
    ];
    assert_eq!(
        select_backup_names(names),
        vec![
            "mercury_cortex_global_knowledge.db.10".to_string(),
            "mercury_cortex_global_knowledge.db.9".to_string()
        ]
    );
}

#[test]
fn backup_and_restore_layouts() {
    let b = backup_layout("/data");
    assert_eq!(b.db_path, "/data/mercury_cortex_global_knowledge.db");
    assert_eq!(b.lock_path, "/data/mercury_cortex_global_knowledge.db/LOCK");
    assert_eq!(b.backups_dir, "/data/backups");
    let r = restore_layout("/data");
    assert_eq!(r.temp_path, "/data/mercury_cortex_global_knowledge.restore-tmp");
    assert_eq!(r.old_path, "/data/mercury_cortex_global_knowledge.old");
}
