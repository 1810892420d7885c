//! The statements each migration runs, and the bookkeeping statements of
//! the migration runner.
use vstd::prelude::*;

use crate::db::reset::str_views;

verus! {

/// The statements that define the `_migrations` tracking table, run before
/// any migration.
pub open spec fn spec_bootstrap_statements() -> Seq<Seq<char>> {
    seq![
        "DEFINE TABLE IF NOT EXISTS _migrations SCHEMAFULL"@,
        "DEFINE FIELD IF NOT EXISTS version ON TABLE _migrations TYPE int"@,
        "DEFINE FIELD IF NOT EXISTS name ON TABLE _migrations TYPE string"@,
        "DEFINE FIELD IF NOT EXISTS applied_at ON TABLE _migrations TYPE datetime"@,
        "DEFINE INDEX IF NOT EXISTS _migrations_version_unique ON TABLE _migrations COLUMNS version UNIQUE"@,
    ]
}

/// The statements that define the `_migrations` tracking table.
pub fn bootstrap_statements() -> (v: Vec<&'static str>)
    ensures
        str_views(v@) == spec_bootstrap_statements(),
{
    let v = vec![
        "DEFINE TABLE IF NOT EXISTS _migrations SCHEMAFULL",
        "DEFINE FIELD IF NOT EXISTS version ON TABLE _migrations TYPE int",
        "DEFINE FIELD IF NOT EXISTS name ON TABLE _migrations TYPE string",
        "DEFINE FIELD IF NOT EXISTS applied_at ON TABLE _migrations TYPE datetime",
        "DEFINE INDEX IF NOT EXISTS _migrations_version_unique ON TABLE _migrations COLUMNS version UNIQUE",
    ];
    assert(str_views(v@) =~= spec_bootstrap_statements());
    v
}

/// The statement recording an applied migration (`$v` its version, `$n` its
/// name).
pub const RECORD_MIGRATION: &'static str = "CREATE _migrations SET version = $v, name = $n, applied_at = time::now()";

/// The statement listing the applied migration versions.
pub const APPLIED_VERSIONS: &'static str = "SELECT VALUE version FROM _migrations ORDER BY version";

/// The statements a schema migration runs, in order: the users table (1),
/// the projects table (2), the file data table (3) and the relation tables
/// (4). Migration 5 rewrites data and is planned separately; it ends by
/// defining the unique root-path index.
pub open spec fn spec_migration_statements(version: u64) -> Seq<Seq<char>> {
    if version == 1 {
        seq![
            "DEFINE TABLE IF NOT EXISTS users SCHEMAFULL"@,
            "DEFINE FIELD IF NOT EXISTS name ON TABLE users TYPE string"@,
            "DEFINE FIELD IF NOT EXISTS email ON TABLE users TYPE string"@,
            "DEFINE FIELD IF NOT EXISTS type ON TABLE users TYPE string"@,
            "DEFINE FIELD IF NOT EXISTS agent_name ON TABLE users TYPE string ASSERT $value != NONE AND string::matches($value, '^agent-[a-z0-9][a-z0-9-]*$')"@,
            "DEFINE FIELD IF NOT EXISTS created_at ON TABLE users TYPE datetime"@,
            "DEFINE FIELD IF NOT EXISTS updated_at ON TABLE users TYPE datetime"@,
            "DEFINE INDEX IF NOT EXISTS unique_email ON TABLE users COLUMNS email UNIQUE"@,
            "DEFINE INDEX IF NOT EXISTS unique_agent_name ON TABLE users COLUMNS agent_name UNIQUE"@,
        ]
    } else if version == 2 {
        seq![
            "DEFINE TABLE IF NOT EXISTS projects SCHEMAFULL"@,
            "DEFINE FIELD IF NOT EXISTS owner_id ON TABLE projects TYPE record<users> ASSERT $value != NONE"@,
            "DEFINE FIELD IF NOT EXISTS name ON TABLE projects TYPE string"@,
            "DEFINE FIELD IF NOT EXISTS slug ON TABLE projects TYPE string"@,
            "DEFINE FIELD IF NOT EXISTS root_path ON TABLE projects TYPE string"@,
            "DEFINE FIELD IF NOT EXISTS framework ON TABLE projects TYPE string DEFAULT ''"@,
            "DEFINE FIELD IF NOT EXISTS language ON TABLE projects TYPE string DEFAULT ''"@,
            "DEFINE FIELD IF NOT EXISTS created_at ON TABLE projects TYPE datetime"@,
            "DEFINE FIELD IF NOT EXISTS updated_at ON TABLE projects TYPE datetime"@,
            "DEFINE INDEX IF NOT EXISTS unique_slug_per_owner ON TABLE projects COLUMNS owner_id, slug UNIQUE"@,
            "DEFINE INDEX IF NOT EXISTS projects_owner_id ON TABLE projects COLUMNS owner_id"@,
        ]
    } else if version == 3 {
        seq![
            "DEFINE TABLE IF NOT EXISTS file_data SCHEMAFULL"@,
            "DEFINE FIELD IF NOT EXISTS project_id ON TABLE file_data TYPE record<projects> ASSERT $value != NONE"@,
            "DEFINE FIELD IF NOT EXISTS path ON TABLE file_data TYPE string"@,
            "DEFINE FIELD IF NOT EXISTS type ON TABLE file_data TYPE string DEFAULT ''"@,
            "DEFINE FIELD IF NOT EXISTS purpose ON TABLE file_data TYPE string DEFAULT ''"@,
            "DEFINE FIELD IF NOT EXISTS summary ON TABLE file_data TYPE string DEFAULT ''"@,
            "DEFINE FIELD IF NOT EXISTS features ON TABLE file_data TYPE array<string> DEFAULT []"@,
            "DEFINE FIELD IF NOT EXISTS tags ON TABLE file_data TYPE array<string> DEFAULT []"@,
            "DEFINE FIELD IF NOT EXISTS exported_functions ON TABLE file_data TYPE array<string> DEFAULT []"@,
            "DEFINE FIELD IF NOT EXISTS hash ON TABLE file_data TYPE string DEFAULT ''"@,
            "DEFINE FIELD IF NOT EXISTS indexed_at ON TABLE file_data TYPE datetime"@,
            "DEFINE FIELD IF NOT EXISTS updated_at ON TABLE file_data TYPE datetime"@,
            "DEFINE FIELD IF NOT EXISTS content ON TABLE file_data TYPE string DEFAULT ''"@,
            "DEFINE FIELD IF NOT EXISTS previous_content ON TABLE file_data TYPE string DEFAULT ''"@,
            "DEFINE FIELD IF NOT EXISTS content_digest ON TABLE file_data TYPE string DEFAULT ''"@,
            "DEFINE INDEX IF NOT EXISTS unique_path_per_project ON TABLE file_data COLUMNS project_id, path UNIQUE"@,
            "DEFINE INDEX IF NOT EXISTS file_data_type ON TABLE file_data COLUMNS type"@,
            "DEFINE INDEX IF NOT EXISTS file_data_purpose ON TABLE file_data COLUMNS purpose"@,
            "DEFINE INDEX IF NOT EXISTS file_data_hash ON TABLE file_data COLUMNS hash"@,
            "DEFINE INDEX IF NOT EXISTS file_data_path ON TABLE file_data COLUMNS path"@,
        ]
    } else if version == 4 {
        seq![
            "DEFINE TABLE IF NOT EXISTS owns TYPE RELATION FROM users TO projects"@,
            "DEFINE TABLE IF NOT EXISTS contains TYPE RELATION FROM projects TO file_data"@,
            "DEFINE TABLE IF NOT EXISTS imports TYPE RELATION FROM file_data TO file_data"@,
            "DEFINE TABLE IF NOT EXISTS calls TYPE RELATION FROM file_data TO file_data"@,
            "DEFINE TABLE IF NOT EXISTS depends_on TYPE RELATION FROM file_data TO file_data"@,
            "DEFINE TABLE IF NOT EXISTS part_of_pattern TYPE RELATION FROM file_data TO file_data"@,
        ]
    } else {
        Seq::empty()
    }
}

/// The statements of a schema migration (none for a version without a
/// fixed list).
pub fn migration_statements(version: u64) -> (v: Vec<&'static str>)
    ensures
        str_views(v@) == spec_migration_statements(version),
{
    if version == 1 {
        let v = vec![
            "DEFINE TABLE IF NOT EXISTS users SCHEMAFULL",
            "DEFINE FIELD IF NOT EXISTS name ON TABLE users TYPE string",
            "DEFINE FIELD IF NOT EXISTS email ON TABLE users TYPE string",
            "DEFINE FIELD IF NOT EXISTS type ON TABLE users TYPE string",
            "DEFINE FIELD IF NOT EXISTS agent_name ON TABLE users TYPE string ASSERT $value != NONE AND string::matches($value, '^agent-[a-z0-9][a-z0-9-]*$')",
            "DEFINE FIELD IF NOT EXISTS created_at ON TABLE users TYPE datetime",
            "DEFINE FIELD IF NOT EXISTS updated_at ON TABLE users TYPE datetime",
            "DEFINE INDEX IF NOT EXISTS unique_email ON TABLE users COLUMNS email UNIQUE",
            "DEFINE INDEX IF NOT EXISTS unique_agent_name ON TABLE users COLUMNS agent_name UNIQUE",
        ];
        assert(str_views(v@) =~= spec_migration_statements(version));
        v
    } else if version == 2 {
        let v = vec![
            "DEFINE TABLE IF NOT EXISTS projects SCHEMAFULL",
            "DEFINE FIELD IF NOT EXISTS owner_id ON TABLE projects TYPE record<users> ASSERT $value != NONE",
            "DEFINE FIELD IF NOT EXISTS name ON TABLE projects TYPE string",
            "DEFINE FIELD IF NOT EXISTS slug ON TABLE projects TYPE string",
            "DEFINE FIELD IF NOT EXISTS root_path ON TABLE projects TYPE string",
            "DEFINE FIELD IF NOT EXISTS framework ON TABLE projects TYPE string DEFAULT ''",
            "DEFINE FIELD IF NOT EXISTS language ON TABLE projects TYPE string DEFAULT ''",
            "DEFINE FIELD IF NOT EXISTS created_at ON TABLE projects TYPE datetime",
            "DEFINE FIELD IF NOT EXISTS updated_at ON TABLE projects TYPE datetime",
            "DEFINE INDEX IF NOT EXISTS unique_slug_per_owner ON TABLE projects COLUMNS owner_id, slug UNIQUE",
            "DEFINE INDEX IF NOT EXISTS projects_owner_id ON TABLE projects COLUMNS owner_id",
        ];
        assert(str_views(v@) =~= spec_migration_statements(version));
        v
    } else if version == 3 {
        let v = vec![
            "DEFINE TABLE IF NOT EXISTS file_data SCHEMAFULL",
            "DEFINE FIELD IF NOT EXISTS project_id ON TABLE file_data TYPE record<projects> ASSERT $value != NONE",
            "DEFINE FIELD IF NOT EXISTS path ON TABLE file_data TYPE string",
            "DEFINE FIELD IF NOT EXISTS type ON TABLE file_data TYPE string DEFAULT ''",
            "DEFINE FIELD IF NOT EXISTS purpose ON TABLE file_data TYPE string DEFAULT ''",
            "DEFINE FIELD IF NOT EXISTS summary ON TABLE file_data TYPE string DEFAULT ''",
            "DEFINE FIELD IF NOT EXISTS features ON TABLE file_data TYPE array<string> DEFAULT []",
            "DEFINE FIELD IF NOT EXISTS tags ON TABLE file_data TYPE array<string> DEFAULT []",
            "DEFINE FIELD IF NOT EXISTS exported_functions ON TABLE file_data TYPE array<string> DEFAULT []",
            "DEFINE FIELD IF NOT EXISTS hash ON TABLE file_data TYPE string DEFAULT ''",
            "DEFINE FIELD IF NOT EXISTS indexed_at ON TABLE file_data TYPE datetime",
            "DEFINE FIELD IF NOT EXISTS updated_at ON TABLE file_data TYPE datetime",
            "DEFINE FIELD IF NOT EXISTS content ON TABLE file_data TYPE string DEFAULT ''",
            "DEFINE FIELD IF NOT EXISTS previous_content ON TABLE file_data TYPE string DEFAULT ''",
            "DEFINE FIELD IF NOT EXISTS content_digest ON TABLE file_data TYPE string DEFAULT ''",
            "DEFINE INDEX IF NOT EXISTS unique_path_per_project ON TABLE file_data COLUMNS project_id, path UNIQUE",
            "DEFINE INDEX IF NOT EXISTS file_data_type ON TABLE file_data COLUMNS type",
            "DEFINE INDEX IF NOT EXISTS file_data_purpose ON TABLE file_data COLUMNS purpose",
            "DEFINE INDEX IF NOT EXISTS file_data_hash ON TABLE file_data COLUMNS hash",
            "DEFINE INDEX IF NOT EXISTS file_data_path ON TABLE file_data COLUMNS path",
        ];
        assert(str_views(v@) =~= spec_migration_statements(version));
        v
    } else if version == 4 {
        let v = vec![
            "DEFINE TABLE IF NOT EXISTS owns TYPE RELATION FROM users TO projects",
            "DEFINE TABLE IF NOT EXISTS contains TYPE RELATION FROM projects TO file_data",
            "DEFINE TABLE IF NOT EXISTS imports TYPE RELATION FROM file_data TO file_data",
            "DEFINE TABLE IF NOT EXISTS calls TYPE RELATION FROM file_data TO file_data",
            "DEFINE TABLE IF NOT EXISTS depends_on TYPE RELATION FROM file_data TO file_data",
            "DEFINE TABLE IF NOT EXISTS part_of_pattern TYPE RELATION FROM file_data TO file_data",
        ];
        assert(str_views(v@) =~= spec_migration_statements(version));
        v
    } else {
        let v: Vec<&'static str> = Vec::new();
        assert(str_views(v@) =~= spec_migration_statements(version));
        v
    }
}

/// Migration 5: reads every project's id, root path and update time.
pub const SELECT_PROJECT_ROOTS: &'static str = "SELECT id, root_path, updated_at FROM projects";

/// Migration 5: moves a project to its canonical root path.
pub const REWRITE_ROOT_PATH: &'static str = "UPDATE $id SET root_path = $canonical";

/// Migration 5: deletes the file data of a dropped duplicate project.
pub const DELETE_PROJECT_FILES: &'static str = "DELETE file_data WHERE project_id = $id";

/// Migration 5: deletes the dropped duplicate projects.
pub const DELETE_PROJECTS: &'static str = "DELETE projects WHERE id IN $ids";

/// Migration 5: makes root paths unique.
pub const UNIQUE_ROOT_PATH_INDEX: &'static str = "DEFINE INDEX IF NOT EXISTS unique_root_path ON TABLE projects COLUMNS root_path UNIQUE";

} // verus!
