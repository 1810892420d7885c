use mercury_cortex_core::db::export::InfoReply;
use mercury_cortex_core::schema::migration::registry::v005_add_unique_root_path::{
    plan_root_dedup, RootRecord,
};
use mercury_cortex_core::schema::migration::registry::{all_migrations, expected_tables};
use mercury_cortex_core::schema::migration::run::{
    format_migration_name, pending_migrations, verify_schema_info, verify_schema_tables,
};
use mercury_cortex_core::schema::migration::statements::{
    bootstrap_statements, migration_statements,
};

#[test]
fn migration_names_read_as_titles() {
    assert_eq!(format_migration_name("create_users_table"), "Create Users Table");
    assert_eq!(format_migration_name("add_unique_root_path"), "Add Unique Root Path");
    assert_eq!(format_migration_name(""), "");
    assert_eq!(format_migration_name("a__b"), "A  B");
}

#[test]
fn pending_migrations_skip_applied_versions() {
    let all = all_migrations();
    assert_eq!(all.len(), 5);
    let pending = pending_migrations(&all, &vec![1, 2, 4]);
    let versions: Vec<u64> = pending.iter().map(|m| m.version).collect();
    assert_eq!(versions, vec![3, 5]);
    assert_eq!(pending[1].name, "add_unique_root_path");
}

#[test]
fn migrating_twice_applies_nothing_new() {
    let all = all_migrations();
    let mut applied: Vec<i64> = vec![2];
    for m in pending_migrations(&all, &applied) {
        applied.push(m.version as i64);
    }
    assert_eq!(applied, vec![2, 1, 3, 4, 5]);
    assert!(pending_migrations(&all, &applied).is_empty());
}

#[test]
fn schema_check_names_missing_tables() {
    let all: Vec<String> = expected_tables().iter().map(|s| s.to_string()).collect();
    assert_eq!(verify_schema_tables(&all), None);
    let some: Vec<String> = all.iter().filter(|t| *t != "owns" && *t != "calls").cloned().collect();
    assert_eq!(
        verify_schema_tables(&some),
        Some("Schema is incomplete – missing tables: owns, calls".to_string())
    );
    assert_eq!(
        verify_schema_info(&InfoReply::Object(None)),
        Some("INFO FOR DB returned no 'tables' key".to_string())
    );
}

#[test]
fn migration_statement_lists() {
    assert_eq!(bootstrap_statements().len(), 5);
    assert_eq!(migration_statements(1)[0], "DEFINE TABLE IF NOT EXISTS users SCHEMAFULL");
    assert_eq!(migration_statements(3).len(), 20);
    assert_eq!(
        migration_statements(4)[5],
        "DEFINE TABLE IF NOT EXISTS part_of_pattern TYPE RELATION FROM file_data TO file_data"
    );
    assert!(migration_statements(9).is_empty());
}

#[test]
fn root_dedup_keeps_the_newest_of_each_root() {
    let rec = |p: Option<&str>, t: i64| RootRecord {
        root_path: p.map(|s| s.to_string()),
        updated_at: t,
    };
    let records = vec![
        rec(Some("/a/b/"), 5),
        rec(Some("/a/b"), 9),
        rec(Some("/"), 1),
        rec(None, 3),
        rec(Some("/c"), 2),
    ];
    let plan = plan_root_dedup(&records);
    assert_eq!(plan.canonical[0], Some("/a/b".to_string()));
    assert_eq!(plan.canonical[3], None);
    assert_eq!(plan.rewrite, vec![0]);
    assert_eq!(plan.drop, vec![0, 2]);
}
