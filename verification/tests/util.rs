use mercury_cortex_core::util::{
    canonicalize_root_path, is_safe_relative_path, join_path, join_within_root,
    project_id_value, record_id_to_string, record_id_value, record_ref, record_thing_to_string,
    RecordKeyText, RecordRef, RecordValue,
};

#[test]
fn record_id_value_parses_table_key() {
    assert!(record_id_value("projects:p1").is_ok());
}

#[test]
fn record_id_value_rejects_invalid_strings() {
    assert!(record_id_value("").is_err());
    assert!(record_id_value("not a record id").is_err());
}

#[test]
fn project_id_value_still_parses() {
    assert!(project_id_value("projects:p1").is_ok());
}

#[test]
fn record_id_value_error_keeps_the_input() {
    let e = record_id_value("nocolon").unwrap_err();
    assert_eq!(e.record, "nocolon");
    assert!(!e.reason.is_empty());
}

fn rref(table: &str, key: RecordKeyText) -> RecordRef {
    RecordRef {
        table: table.to_string(),
        key,
    }
}

#[test]
fn record_thing_to_string_spells_simple_keys() {
    let v = RecordValue::Record(rref("projects", RecordKeyText::Text("abc".to_string())));
    assert_eq!(record_thing_to_string(&v), Some("projects:abc".to_string()));
    let n = RecordValue::Record(rref("t", RecordKeyText::Number(-42)));
    assert_eq!(record_thing_to_string(&n), Some("t:-42".to_string()));
    let big = RecordValue::Record(rref("t", RecordKeyText::Number(i64::MIN)));
    assert_eq!(
        record_thing_to_string(&big),
        Some("t:-9223372036854775808".to_string())
    );
    let other = RecordValue::Record(rref("t", RecordKeyText::Other("[1]".to_string())));
    assert_eq!(record_thing_to_string(&other), None);
    assert_eq!(record_thing_to_string(&RecordValue::Other), None);
    assert_eq!(
        record_thing_to_string(&RecordValue::Object(Some(rref(
            "t",
            RecordKeyText::Number(1)
        )))),
        None
    );
}

#[test]
fn record_id_to_string_reads_objects_and_debug_keys() {
    let obj = RecordValue::Object(Some(rref("file_data", RecordKeyText::Number(7))));
    assert_eq!(record_id_to_string(&obj), Some("file_data:7".to_string()));
    let other = RecordValue::Record(rref("t", RecordKeyText::Other("Array([1])".to_string())));
    assert_eq!(record_id_to_string(&other), Some("t:Array([1])".to_string()));
    assert_eq!(record_id_to_string(&RecordValue::Object(None)), None);
    assert_eq!(record_id_to_string(&RecordValue::Other), None);
}

#[test]
fn canonicalize_root_path_resolves_dots_and_slashes() {
    assert_eq!(canonicalize_root_path("/a/b/../c/"), "/a/c");
    assert_eq!(canonicalize_root_path("/a//b/./c"), "/a/b/c");
    assert_eq!(canonicalize_root_path("a/./b//c/"), "a/b/c");
    assert_eq!(canonicalize_root_path("/"), "/");
    assert_eq!(canonicalize_root_path(""), "/");
    assert_eq!(canonicalize_root_path("."), "/");
    assert_eq!(canonicalize_root_path("foo/.."), "/");
    assert_eq!(canonicalize_root_path("/.."), "/");
}

#[test]
fn canonicalize_root_path_is_idempotent_on_examples() {
    for p in ["/a/b/../c/", "x/./y", "/", "../q"] {
        let once = canonicalize_root_path(p);
        assert_eq!(canonicalize_root_path(&once), once);
    }
}

#[test]
fn is_safe_relative_path_rejects_escapes() {
    assert!(!is_safe_relative_path(""));
    assert!(!is_safe_relative_path("."));
    assert!(!is_safe_relative_path("/etc/passwd"));
    assert!(!is_safe_relative_path("a/../b"));
    assert!(!is_safe_relative_path(".."));
    assert!(is_safe_relative_path("a/b.rs"));
    assert!(is_safe_relative_path("./a"));
    assert!(is_safe_relative_path("a/..b"));
}

#[test]
fn join_within_root_joins_safe_paths_only() {
    assert_eq!(
        join_within_root("/root", "src/main.rs"),
        Some("/root/src/main.rs".to_string())
    );
    assert_eq!(join_within_root("/root/", "x"), Some("/root/x".to_string()));
    assert_eq!(join_within_root("/root", "../x"), None);
    assert_eq!(join_within_root("/root", "/x"), None);
}

#[test]
fn join_path_follows_path_join() {
    assert_eq!(join_path("a", "b"), "a/b");
    assert_eq!(join_path("a/", "b"), "a/b");
    assert_eq!(join_path("", "b"), "b");
    assert_eq!(join_path("a", "/b"), "/b");
}

#[test]
fn parsed_record_ids_keep_table_and_key() {
    let rid = record_id_value("projects:p1:x").unwrap();
    assert_eq!(
        record_ref(&rid),
        RecordRef {
            table: "projects".to_string(),
            key: RecordKeyText::Text("p1:x".to_string()),
        }
    );
    assert!(record_id_value("").is_err());
    assert!(record_id_value("not a record id").is_err());
}

#[test]
fn canonical_roots_have_plain_components() {
    assert_eq!(canonicalize_root_path("/a/./b//c/../"), "/a/b");
    assert_eq!(canonicalize_root_path("a/.."), "/");
    assert_eq!(canonicalize_root_path("x/y/"), "x/y");
}
