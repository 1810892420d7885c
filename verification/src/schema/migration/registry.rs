//! Migration registry — declares all known migrations.
use vstd::prelude::*;

use crate::schema::migration::run::Migration;

pub mod v005_add_unique_root_path;

verus! {

/// The registered migrations, by version and name.
pub open spec fn spec_all_migrations() -> Seq<(u64, Seq<char>)> {
    seq![
        (1u64, "create_users_table"@),
        (2u64, "create_projects_table"@),
        (3u64, "create_file_data_table"@),
        (4u64, "create_graph_relations"@),
        (5u64, "add_unique_root_path"@),
    ]
}

/// Every registered migration, in version order.
pub fn all_migrations() -> (v: Vec<Migration>)
    ensures
        v@.map_values(|m: Migration| (m.version, m.name@)) == spec_all_migrations(),
{
    let v = vec![
        Migration { version: 1, name: "create_users_table" },
        Migration { version: 2, name: "create_projects_table" },
        Migration { version: 3, name: "create_file_data_table" },
        Migration { version: 4, name: "create_graph_relations" },
        Migration { version: 5, name: "add_unique_root_path" },
    ];
    assert(v@.map_values(|m: Migration| (m.version, m.name@)) =~= spec_all_migrations());
    v
}

/// The tables that exist once every migration has run.
pub open spec fn spec_expected_tables() -> Seq<Seq<char>> {
    seq![
        "users"@,
        "projects"@,
        "file_data"@,
        "owns"@,
        "contains"@,
        "imports"@,
        "calls"@,
        "depends_on"@,
        "part_of_pattern"@,
    ]
}

/// Return the set of table names expected to exist after all migrations have
/// been applied.  This is the source of truth for schema verification.
pub fn expected_tables() -> (v: Vec<&'static str>)
    ensures
        v@.map_values(|s: &str| s@) == spec_expected_tables(),
{
    let v = vec![
        "users",
        "projects",
        "file_data",
        "owns",
        "contains",
        "imports",
        "calls",
        "depends_on",
        "part_of_pattern",
    ];
    assert(v@.map_values(|s: &str| s@) =~= spec_expected_tables());
    v
}

} // verus!
