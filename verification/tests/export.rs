use mercury_cortex_core::db::export::{list_tables_filter, ExportFilter};

#[test]
fn export_filter_record_validates_and_stores() {
    let f = ExportFilter::record("project_id", "projects:p1").unwrap();
    assert_eq!(f.field, "project_id");
    assert_eq!(f.record, "projects:p1");
}

#[test]
fn export_filter_record_rejects_invalid_record_id() {
    assert!(ExportFilter::record("project_id", "not a record id").is_err());
}

#[test]
fn list_tables_filter_keeps_public_tables() {
    let names = vec![
        "_migrations".to_string(),
        "file_data".to_string(),
        "projects".to_string(),
    ];
    let filtered: Vec<String> = list_tables_filter(names.clone());
    assert_eq!(
        filtered,
        vec!["file_data".to_string(), "projects".to_string()]
    );
}

#[test]
fn list_tables_filter_sorts_alphabetically() {
    let names = vec![
        "users".to_string(),
        "projects".to_string(),
        "file_data".to_string(),
    ];
    let filtered = list_tables_filter(names);
    assert_eq!(
        filtered,
        vec![
            "file_data".to_string(),
            "projects".to_string(),
            "users".to_string()
        ]
    );
}

use mercury_cortex_core::db::export::{
    check_tables, filter_params, info_has_field, row_order, table_query, tables_in_info,
    ExportFile, InfoReply,
};
use mercury_cortex_core::service::ServiceError;

#[test]
fn sort_rows_orders_by_id_with_missing_ids_last() {
    let ids = vec![
        Some("projects:p2".to_string()),
        None,
        Some("projects:p1".to_string()),
    ];
    let order = row_order(&ids);
    let sorted: Vec<Option<String>> = order.iter().map(|&i| ids[i].clone()).collect();
    assert_eq!(
        sorted,
        vec![
            Some("projects:p1".to_string()),
            Some("projects:p2".to_string()),
            None
        ]
    );
}

#[test]
fn sort_rows_is_stable_for_missing_ids() {
    let ids: Vec<Option<String>> = vec![None, None];
    let order = row_order(&ids);
    assert_eq!(order[0], 0);
    assert_eq!(order[1], 1);
}

#[test]
fn row_order_keeps_equal_ids_in_order() {
    let ids = vec![
        Some("b".to_string()),
        Some("a".to_string()),
        Some("b".to_string()),
        None,
        Some("a".to_string()),
    ];
    assert_eq!(row_order(&ids), vec![1, 4, 0, 2, 3]);
}

#[test]
fn export_file_is_named_after_its_table() {
    let f = ExportFile::for_table("projects", 7);
    assert_eq!(f.table, "projects");
    assert_eq!(f.filename, "projects.json");
    assert_eq!(f.rows, 7);
}

#[test]
fn tables_in_info_lists_sorted_public_tables() {
    let info = InfoReply::Object(Some(vec![
        "users".to_string(),
        "_migrations".to_string(),
        "calls".to_string(),
    ]));
    assert_eq!(
        tables_in_info(info).unwrap(),
        vec!["calls".to_string(), "users".to_string()]
    );
}

#[test]
fn tables_in_info_reports_malformed_replies() {
    assert_eq!(
        tables_in_info(InfoReply::Object(None)),
        Err(ServiceError::Internal(
            "INFO FOR DB returned no 'tables' key".to_string()
        ))
    );
    assert_eq!(
        tables_in_info(InfoReply::Other),
        Err(ServiceError::Internal(
            "INFO FOR DB returned unexpected format".to_string()
        ))
    );
}

#[test]
fn info_has_field_reads_field_lists() {
    let info = InfoReply::Object(Some(vec!["path".to_string(), "project_id".to_string()]));
    assert_eq!(info_has_field(&info, "file_data", "project_id"), Ok(true));
    assert_eq!(info_has_field(&info, "file_data", "owner"), Ok(false));
    assert_eq!(
        info_has_field(&InfoReply::Object(None), "file_data", "x"),
        Ok(false)
    );
    assert_eq!(
        info_has_field(&InfoReply::Other, "file_data", "x"),
        Err(ServiceError::Internal(
            "INFO FOR TABLE file_data returned unexpected format".to_string()
        ))
    );
}

#[test]
fn check_tables_lists_unknown_tables_sorted() {
    let present = vec!["projects".to_string(), "users".to_string()];
    assert_eq!(check_tables(&vec!["users".to_string()], &present), Ok(()));
    let requested = vec![
        "zeta".to_string(),
        "users".to_string(),
        "alpha".to_string(),
    ];
    assert_eq!(
        check_tables(&requested, &present),
        Err(ServiceError::Validation(
            "unknown table(s): alpha, zeta".to_string()
        ))
    );
}

#[test]
fn filter_params_refuses_the_first_bad_record() {
    let good = ExportFilter {
        field: "project_id".to_string(),
        record: "projects:p1".to_string(),
    };
    let bad = ExportFilter {
        field: "owner".to_string(),
        record: "nobody".to_string(),
    };
    let ok = filter_params(&vec![good.clone()]).unwrap();
    assert_eq!(ok.len(), 1);
    assert_eq!(ok[0].0, "project_id");
    match filter_params(&vec![good, bad]) {
        Err(ServiceError::Validation(m)) => {
            assert!(m.starts_with("invalid record id for 'owner': "))
        }
        other => panic!("unexpected: {:?}", other.map(|v| v.len())),
    }
}

#[test]
fn table_query_without_filters_selects_everything() {
    let q = table_query("users", &vec![], &vec![]);
    assert_eq!(q.sql, "SELECT * FROM users");
    assert!(q.binds.is_empty());
    assert!(q.skipped.is_empty());
}

#[test]
fn table_query_applies_present_fields_and_notes_the_rest() {
    let fields = vec![
        "owner".to_string(),
        "project_id".to_string(),
        "agent".to_string(),
    ];
    let q = table_query("file_data", &fields, &vec![false, true, true]);
    assert_eq!(
        q.sql,
        "SELECT * FROM file_data WHERE project_id = $f0 AND agent = $f1"
    );
    assert_eq!(
        q.binds,
        vec![("f0".to_string(), 1usize), ("f1".to_string(), 2usize)]
    );
    assert_eq!(
        q.skipped,
        vec!["skipping filter: file_data has no owner".to_string()]
    );
}
