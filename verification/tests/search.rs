use mercury_cortex_core::engine::error::EngineError;
use mercury_cortex_core::engine::index::search::{
    attach_roots, build_search_query, missing_project_ids, needs_stored_metadata,
    prepare_search, process_search_results, query_terms, rank_hits, resolve_project_clause,
    score_result, validate_query, BindValue, JsonField, ProjectField, RawHit, SearchHit,
    SearchQuery,
};

fn query(text: Option<&str>) -> SearchQuery {
    SearchQuery {
        query: text.map(|s| s.to_string()),
        path: None,
        purpose: None,
        features: None,
        language: None,
        framework: None,
        limit: None,
        search_all_projects: None,
    }
}

fn hit(path: &str, purpose: &str, project: &str) -> SearchHit {
    SearchHit {
        path: path.to_string(),
        file_type: "rust".to_string(),
        purpose: purpose.to_string(),
        summary: String::new(),
        tags: vec![],
        file_data_id: String::new(),
        project_id: project.to_string(),
        project_root: String::new(),
        score: 0,
        features_json: String::new(),
        exported_functions_json: String::new(),
    }
}

#[test]
fn query_validation() {
    assert_eq!(validate_query("find the parser"), Ok(()));
    assert_eq!(validate_query("line\nbreak\ttab"), Ok(()));
    assert_eq!(
        validate_query("bell\u{7}"),
        Err(EngineError::Internal(
            "query contains invalid control characters".to_string()
        ))
    );
    let long = "x".repeat(1001);
    assert_eq!(
        validate_query(&long),
        Err(EngineError::Internal(
            "query exceeds maximum length of 1000 characters".to_string()
        ))
    );
    assert_eq!(validate_query(&"x".repeat(1000)), Ok(()));
}

#[test]
fn query_terms_strip_the_prefix_marker() {
    let t = query_terms("  Parse  JSON** ");
    assert!(!t.is_prefix);
    assert_eq!(t.tokens, vec!["parse".to_string(), "json**".to_string()]);
    let p = query_terms("Conf**");
    assert!(p.is_prefix);
    assert_eq!(p.stripped, "Conf");
    assert_eq!(p.tokens, vec!["conf".to_string()]);
    assert!(query_terms("").tokens.is_empty());
}

#[test]
fn project_scope_clauses() {
    let mut q = query(None);
    assert!(needs_stored_metadata(&q));
    let s = resolve_project_clause(&q, None, Some(String::new()));
    assert_eq!(s.clause, "project_id = $project_id");
    assert_eq!(s.binds, vec![("project_id".to_string(), BindValue::CurrentProject)]);
    let s = resolve_project_clause(&q, Some("Rust".to_string()), Some("axum".to_string()));
    assert_eq!(
        s.clause,
        "project_id IN (SELECT VALUE id FROM projects WHERE string::lowercase(language) = string::lowercase($lang) AND string::lowercase(framework) = string::lowercase($fw))"
    );
    assert_eq!(s.binds.len(), 2);
    q.framework = Some("react".to_string());
    assert!(!needs_stored_metadata(&q));
    let s = resolve_project_clause(&q, Some("Rust".to_string()), None);
    assert_eq!(
        s.clause,
        "project_id IN (SELECT VALUE id FROM projects WHERE string::lowercase(framework) = string::lowercase($fw))"
    );
    assert_eq!(s.binds, vec![("fw".to_string(), BindValue::Text("react".to_string()))]);
    q.search_all_projects = Some(true);
    let s = resolve_project_clause(&q, None, None);
    assert_eq!(s.clause, "");
    assert!(s.binds.is_empty());
}

#[test]
fn search_statement_with_words() {
    let q = query(Some("parse json"));
    let tokens = vec!["parse".to_string(), "json".to_string()];
    let (sql, binds) = build_search_query(
        "project_id = $project_id",
        vec![("project_id".to_string(), BindValue::CurrentProject)],
        &q,
        &tokens,
        10,
        false,
    );
    assert!(sql.starts_with("SELECT * FROM file_data WHERE project_id = $project_id AND ($path IS NONE OR string::lowercase(path) CONTAINS string::lowercase($path)) AND ($purpose IS NONE OR"));
    assert!(sql.contains("(string::lowercase(path) CONTAINS string::lowercase($qt0) OR "));
    assert!(sql.contains(" OR string::lowercase(path) CONTAINS string::lowercase($qt1) OR "));
    assert!(sql.ends_with("exported_functions CONTAINS string::lowercase($qt1)) LIMIT 10"));
    let names: Vec<&str> = binds.iter().map(|(n, _)| n.as_str()).collect();
    assert_eq!(names, vec!["path", "purpose", "qt0", "qt1", "project_id"]);
    assert_eq!(binds[2].1, BindValue::Text("parse".to_string()));
    assert_eq!(binds[0].1, BindValue::Absent);
}

#[test]
fn search_statement_without_words() {
    let q = query(None);
    let (sql, binds) = build_search_query("", vec![], &q, &vec![], 50, true);
    assert!(sql.starts_with("SELECT * FROM file_data WHERE 1=1 AND"));
    assert!(sql.contains("AND (($q0 IS NONE OR string::lowercase(path) LIKE string::lowercase($q0) || '%' OR "));
    assert!(sql.ends_with("exported_functions CONTAINS string::lowercase($q0))) LIMIT 50"));
    assert_eq!(binds.len(), 3);
    assert_eq!(binds[2], ("q0".to_string(), BindValue::Absent));
}

#[test]
fn scores_count_points() {
    let mut h = hit("src/Parser.rs", "parses input", "projects:p");
    h.summary = "A parser".to_string();
    h.tags = vec!["Parser".to_string()];
    h.features_json = "[\"json parser\"]".to_string();
    // whole query "parse": path 5 + purpose 5 + summary 4 + feature 5 + tag 4 = 23;
    // word "parse": feature 4 + tag 3 + purpose 3 + summary 2 + path 3 = 15.
    assert_eq!(score_result(&h, "PARSE", &vec!["parse".to_string()]), 38);
    assert_eq!(score_result(&h, "", &vec![]), 0);
    assert_eq!(score_result(&h, "zzz", &vec!["rust".to_string()]), 1);
}

#[test]
fn records_become_hits() {
    let raw = |path: JsonField| RawHit {
        path,
        file_type: JsonField::Absent,
        type_field: JsonField::Text("rust".to_string()),
        purpose: JsonField::Other("3".to_string()),
        summary: JsonField::Text("s".to_string()),
        features: Some("[]".to_string()),
        tags: Some(vec![
            JsonField::Text("t".to_string()),
            JsonField::Other("7".to_string()),
        ]),
        exported_functions: None,
        id: JsonField::Other("{\"tb\":\"file_data\"}".to_string()),
        project_id: ProjectField::Object(Some("projects:p".to_string())),
    };
    let hits = process_search_results(&vec![
        raw(JsonField::Text("a.rs".to_string())),
        raw(JsonField::Absent),
        raw(JsonField::Other("1".to_string())),
    ]);
    assert_eq!(hits.len(), 1);
    assert_eq!(hits[0].path, "a.rs");
    assert_eq!(hits[0].file_type, "rust");
    assert_eq!(hits[0].purpose, "");
    assert_eq!(hits[0].file_data_id, "{\"tb\":\"file_data\"}");
    assert_eq!(hits[0].project_id, "projects:p");
    assert_eq!(hits[0].features_json, "[]");
    assert_eq!(hits[0].tags, vec!["t".to_string()]);
}

#[test]
fn roots_are_attached() {
    let hits = vec![
        hit("a", "", "projects:cur"),
        hit("b", "", "projects:x"),
        hit("c", "", "projects:x"),
        hit("d", "", "projects:y"),
    ];
    let missing = missing_project_ids(&hits, "projects:cur");
    assert_eq!(missing, vec!["projects:x".to_string(), "projects:y".to_string()]);
    let out = attach_roots(
        hits,
        "projects:cur",
        "/cur",
        &vec![("projects:x".to_string(), "/x".to_string())],
    );
    let roots: Vec<&str> = out.iter().map(|h| h.project_root.as_str()).collect();
    assert_eq!(roots, vec!["/cur", "/x", "/x", ""]);
}

#[test]
fn hits_are_filtered_ranked_and_limited() {
    let hits = vec![
        hit("docs/readme.md", "overview", "p"),
        hit("src/parser.rs", "parse input", "p"),
        hit("src/lexer.rs", "tokens", "p"),
        hit("src/parse_util.rs", "helpers", "p"),
    ];
    let mut q = query(Some("parse"));
    q.limit = Some(2);
    let tokens = vec!["parse".to_string()];
    let out = rank_hits(hits, &q, &tokens);
    let paths: Vec<&str> = out.iter().map(|h| h.path.as_str()).collect();
    assert_eq!(paths, vec!["src/parser.rs", "src/parse_util.rs"]);
    assert!(out[0].score > out[1].score);
}

#[test]
fn unranked_results_keep_their_order() {
    let hits = vec![hit("b", "", "p"), hit("a", "", "p"), hit("c", "", "p")];
    let out = rank_hits(hits, &query(None), &vec![]);
    let paths: Vec<&str> = out.iter().map(|h| h.path.as_str()).collect();
    assert_eq!(paths, vec!["b", "a", "c"]);
}

#[test]
fn feature_filter_keeps_matching_hits() {
    let mut a = hit("a", "", "p");
    a.features_json = "[\"Auth Flow\"]".to_string();
    let b = hit("b", "", "p");
    let mut q = query(None);
    q.features = Some(vec!["auth".to_string()]);
    let out = rank_hits(vec![a, b], &q, &vec![]);
    assert_eq!(out.len(), 1);
    assert_eq!(out[0].path, "a");
    assert_eq!(out[0].get_features(), vec!["Auth Flow".to_string()]);
}

#[test]
fn search_preparation() {
    let q = query(Some("parse*"));
    assert!(matches!(
        prepare_search(&q, ""),
        Err(EngineError::Internal(m)) if m == "no active project: open a project before searching"
    ));
    let plan = prepare_search(&q, "projects:p").unwrap();
    assert!(plan.terms.is_prefix);
    assert_eq!(plan.limit, 50);
    assert!(plan.project.is_some());
    let mut all = query(None);
    all.search_all_projects = Some(true);
    assert!(prepare_search(&all, "").unwrap().project.is_none());
    assert!(matches!(
        prepare_search(&query(None), "bad"),
        Err(EngineError::Internal(m)) if m.starts_with("invalid project_id: ")
    ));
    assert!(matches!(
        prepare_search(&query(Some("a\u{7}b")), "projects:p"),
        Err(EngineError::Internal(m)) if m == "query contains invalid control characters"
    ));
}
