use mercury_cortex_core::db::export::InfoReply;
use mercury_cortex_core::service::file_data::{FileDataFilterParams, FileDataService};
use mercury_cortex_core::service::graph::GraphService;
use mercury_cortex_core::service::profile::{ProfileService, UserRow};
use mercury_cortex_core::service::project::{
    ProjectAction, ProjectInfoRow, ProjectRow, ProjectService, RegisterStep,
    UpdateMetadataParams, UpdateTarget,
};
use mercury_cortex_core::service::scaffold::{
    agents_md_update, mcignore_defaults, mcignore_update, slugify, AGENTS_MD_CONTENT,
};
use mercury_cortex_core::service::project::reconcile_root_records;
use mercury_cortex_core::service::ServiceError;
use mercury_cortex_core::util::{RecordKeyText, RecordRef, RecordValue};

fn row(id: &str, updated_at: i64) -> ProjectRow {
    ProjectRow {
        is_object: true,
        id: Some(RecordValue::Record(RecordRef {
            table: "projects".to_string(),
            key: RecordKeyText::Text(id.to_string()),
        })),
        updated_at,
    }
}

#[test]
fn service_error_messages() {
    assert_eq!(
        ServiceError::NotFound("x".to_string()).message(),
        "not found: x"
    );
    assert_eq!(
        ServiceError::RuntimeNotReady("Failed".to_string()).message(),
        "runtime not ready: Failed"
    );
}

#[test]
fn filesystem_root_is_refused() {
    let msg = "root_path must not be the filesystem root (got an empty, '.', '..', or '/' path)";
    for p in ["/", "", ".", "..", "foo/.."] {
        assert_eq!(
            ProjectService::canonical_root(p),
            Err(ServiceError::Validation(msg.to_string()))
        );
    }
    assert_eq!(
        ProjectService::canonical_root("/home/u/proj/"),
        Ok("/home/u/proj".to_string())
    );
}

#[test]
fn reconcile_prefers_the_configured_record() {
    let rows = vec![row("a", 5), row("b", 1), row("c", 9)];
    let r = reconcile_root_records(Some("projects:b"), &rows);
    assert_eq!(r.canonical, Some(1));
    assert_eq!(r.deleted, vec![0, 2]);
}

#[test]
fn reconcile_otherwise_keeps_the_newest() {
    let rows = vec![row("a", 5), row("b", 9), row("c", 9)];
    let r = reconcile_root_records(Some("projects:zzz"), &rows);
    assert_eq!(r.canonical, Some(1));
    assert_eq!(r.deleted, vec![0, 2]);
    let single = reconcile_root_records(None, &vec![row("a", 1)]);
    assert_eq!(single.canonical, Some(0));
    assert!(single.deleted.is_empty());
    let none = reconcile_root_records(None, &vec![]);
    assert_eq!(none.canonical, None);
}

#[test]
fn register_decisions() {
    let root = row("p1", 0);
    let other = row("p2", 0);
    assert_eq!(
        ProjectService::plan_register(None, None, None),
        Ok(RegisterStep::Create(ProjectAction::Created))
    );
    assert_eq!(
        ProjectService::plan_register(Some("projects:p9"), None, None),
        Ok(RegisterStep::Create(ProjectAction::CreatedStaleConfig))
    );
    assert_eq!(
        ProjectService::plan_register(None, Some(&root), None),
        Ok(RegisterStep::Update {
            target: UpdateTarget::ByRoot,
            project_id: "projects:p1".to_string(),
            action: ProjectAction::Reused
        })
    );
    assert_eq!(
        ProjectService::plan_register(Some("projects:p9"), Some(&root), None),
        Ok(RegisterStep::Update {
            target: UpdateTarget::ByRoot,
            project_id: "projects:p1".to_string(),
            action: ProjectAction::ReusedStaleConfig
        })
    );
    assert_eq!(
        ProjectService::plan_register(Some("projects:p1"), Some(&root), Some(&root)),
        Ok(RegisterStep::Update {
            target: UpdateTarget::ByRoot,
            project_id: "projects:p1".to_string(),
            action: ProjectAction::Reused
        })
    );
    assert_eq!(
        ProjectService::plan_register(Some("projects:p2"), None, Some(&other)),
        Ok(RegisterStep::Update {
            target: UpdateTarget::ById,
            project_id: "projects:p2".to_string(),
            action: ProjectAction::Moved
        })
    );
}

#[test]
fn register_refuses_an_identity_conflict() {
    let root = row("p1", 0);
    let other = row("p2", 0);
    match ProjectService::plan_register(Some("projects:p2"), Some(&root), Some(&other)) {
        Err(ServiceError::Validation(m)) => {
            assert!(m.starts_with(
                "Identity conflict: this directory is registered as project projects:p1, but config.json identifies it as projects:p2."
            ));
            assert!(m.ends_with("here to re-register this directory."));
        }
        other => panic!("unexpected {other:?}"),
    }
    let bad = ProjectRow {
        is_object: false,
        id: None,
        updated_at: 0,
    };
    assert_eq!(
        ProjectService::plan_register(None, Some(&bad), None),
        Err(ServiceError::Internal("Existing record not an object".to_string()))
    );
    assert_eq!(
        ProjectService::plan_register(Some("projects:p1"), Some(&bad), Some(&root)),
        Err(ServiceError::Internal("Project record missing id".to_string()))
    );
}

#[test]
fn project_lookup_results() {
    assert_eq!(
        ProjectService::project_info("projects:x", None),
        Err(ServiceError::NotFound("Project not found: projects:x".to_string()))
    );
    let ok = ProjectInfoRow {
        is_object: true,
        root_path: Some("/r".to_string()),
        slug: Some("r".to_string()),
    };
    let info = ProjectService::project_info("projects:x", Some(&ok)).unwrap();
    assert_eq!(info.id, "projects:x");
    assert_eq!(info.root_path, "/r");
    assert_eq!(info.slug, "r");
    let no_slug = ProjectInfoRow {
        is_object: true,
        root_path: Some("/r".to_string()),
        slug: None,
    };
    assert_eq!(
        ProjectService::project_info("projects:x", Some(&no_slug)),
        Err(ServiceError::Internal("project record missing slug".to_string()))
    );
    assert_eq!(
        ProjectService::created_project_id(None),
        Err(ServiceError::Internal("Create returned no data".to_string()))
    );
    assert_eq!(
        ProjectService::created_project_id(Some(&row("n", 0))),
        Ok("projects:n".to_string())
    );
    assert_eq!(
        ProjectService::parse_project_id("nope").unwrap_err(),
        ServiceError::Validation("Invalid project_id: nope".to_string())
    );
    assert!(ProjectService::require_owner(false).is_err());
    assert!(ProjectService::require_owner(true).is_ok());
}

#[test]
fn metadata_update_statement() {
    let both = UpdateMetadataParams {
        project_id: "projects:p".to_string(),
        language: Some("rust".to_string()),
        framework: Some("axum".to_string()),
    };
    assert_eq!(
        ProjectService::metadata_update_sql(&both),
        "UPDATE $id SET updated_at = time::now(), language = $language, framework = $framework"
    );
    let none = UpdateMetadataParams {
        project_id: "projects:p".to_string(),
        language: None,
        framework: None,
    };
    assert_eq!(
        ProjectService::metadata_update_sql(&none),
        "UPDATE $id SET updated_at = time::now()"
    );
}

#[test]
fn profile_reading_and_upserting() {
    assert_eq!(ProfileService::profile_from_row(None), Ok(None));
    let u = UserRow {
        is_object: true,
        id: Some(RecordValue::Record(RecordRef {
            table: "users".to_string(),
            key: RecordKeyText::Text("me".to_string()),
        })),
        name: Some("Ada".to_string()),
        email: None,
        agent_name: Some("agent-ada".to_string()),
        profile_type: Some("human".to_string()),
        created_at: None,
    };
    let p = ProfileService::profile_from_row(Some(&u)).unwrap().unwrap();
    assert_eq!(p.id, Some("users:me".to_string()));
    assert_eq!(p.name, "Ada");
    assert_eq!(p.email, "");
    assert_eq!(p.agent_name, "agent-ada");
    assert!(ProfileService::users_table_exists(&InfoReply::Object(Some(vec![
        "users".to_string()
    ]))));
    assert!(!ProfileService::users_table_exists(&InfoReply::Object(None)));
    assert_eq!(
        ProfileService::upsert_sql(true),
        "UPDATE $id SET name = $name, email = $email, agent_name = $agent_name, type = $type, updated_at = time::now() RETURN id"
    );
    assert_eq!(
        ProfileService::upsert_sql(false),
        "CREATE users SET name = $name, email = $email, agent_name = $agent_name, type = $type, updated_at = time::now(), created_at = time::now() RETURN id"
    );
    assert_eq!(
        ProfileService::upserted_id(Some("users:me"), None),
        Err(ServiceError::Validation("Profile not found: users:me".to_string()))
    );
    assert_eq!(
        ProfileService::upserted_id(None, None),
        Err(ServiceError::Internal("User record missing id".to_string()))
    );
    assert!(!ProfileService::email_needs_lookup("a@b", Some("a@b")));
    assert!(ProfileService::email_needs_lookup("a@b", Some("c@d")));
    assert!(ProfileService::email_needs_lookup("a@b", None));
}

#[test]
fn file_data_listing_query() {
    let q = FileDataService::list_query(&FileDataFilterParams::default());
    assert_eq!(q.limit, 50);
    assert_eq!(q.start, 0);
    assert_eq!(
        q.sql,
        "SELECT * FROM file_data WHERE 1=1 ORDER BY indexed_at DESC LIMIT $limit START $start"
    );
    let p = FileDataFilterParams {
        page: Some(3),
        limit: Some(20),
        project_id: Some("projects:p".to_string()),
        path_filter: None,
        purpose_filter: Some("cli".to_string()),
    };
    let q = FileDataService::list_query(&p);
    assert_eq!(q.start, 40);
    assert_eq!(
        q.sql,
        "SELECT * FROM file_data WHERE 1=1 AND project_id = $project_id AND string::lowercase(purpose) CONTAINS string::lowercase($purpose_filter) ORDER BY indexed_at DESC LIMIT $limit START $start"
    );
    let zero = FileDataFilterParams {
        page: Some(0),
        ..FileDataFilterParams::default()
    };
    assert_eq!(FileDataService::list_query(&zero).start, 0);
    assert_eq!(
        FileDataService::not_found("file_data:1"),
        ServiceError::NotFound("file_data not found: file_data:1".to_string())
    );
}

#[test]
fn graph_tables_and_statements() {
    let info = InfoReply::Object(Some(vec!["calls".to_string(), "owns".to_string()]));
    assert_eq!(GraphService::existing_tables(&info), vec!["owns", "calls"]);
    assert!(GraphService::existing_tables(&InfoReply::Other).is_empty());
    assert_eq!(GraphService::list_all_sql("owns"), "SELECT * FROM owns LIMIT 500");
    assert_eq!(
        GraphService::list_by_project_sql("owns"),
        "SELECT * FROM owns WHERE out = $project_id OR in = $project_id LIMIT 200"
    );
}

#[test]
fn slugify_examples() {
    assert_eq!(slugify("My Project"), "my-project");
    assert_eq!(slugify("--Hello__World!!--"), "hello-world");
    assert_eq!(slugify("a--b"), "a-b");
    assert_eq!(slugify("!!!"), "");
    assert_eq!(slugify("Café 2"), "café-2");
    for name in ["My Project_v2!!", "--", "Café 2", "a--b"] {
        let once = slugify(name);
        assert_eq!(slugify(&once), once);
    }
}

#[test]
fn agents_md_is_extended_once() {
    assert_eq!(agents_md_update(None), Some(AGENTS_MD_CONTENT.to_string()));
    let updated = agents_md_update(Some("# Agents")).unwrap();
    assert_eq!(updated, format!("# Agents\n\n{AGENTS_MD_CONTENT}"));
    assert_eq!(agents_md_update(Some(&updated)), None);
    let with_newline = agents_md_update(Some("x\n")).unwrap();
    assert_eq!(with_newline, format!("x\n\n{AGENTS_MD_CONTENT}"));
}

#[test]
fn mcignore_gets_missing_defaults() {
    let fresh = mcignore_update(None).unwrap();
    assert_eq!(fresh, mcignore_defaults().join("\n") + "\n");
    assert_eq!(mcignore_update(Some(&fresh)), None);
    let partial = mcignore_update(Some("target\n# comment\n  build  ")).unwrap();
    assert!(partial.starts_with("target\n# comment\n  build  \ndist\nout\n"));
    assert!(partial.ends_with(".mercury-cortex\n"));
    assert!(!partial.contains("\ntarget\n"));
    assert_eq!(mcignore_update(Some(&partial)), None);
}
