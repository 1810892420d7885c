//! Knowledge-graph edge queries: which relation tables are queried and the
//! statements that read them.
use vstd::prelude::*;
use vstd::string::StringExecFns;

use crate::db::export::InfoReply;
use crate::db::reset::str_views;
use crate::schema::migration::run::{select_names, spec_present};
use crate::text::string_views;

verus! {

/// The knowledge-graph relation tables.
pub open spec fn spec_relation_tables() -> Seq<Seq<char>> {
    seq!["owns"@, "contains"@, "imports"@, "calls"@, "depends_on"@, "part_of_pattern"@]
}

/// The knowledge-graph relation tables, in query order.
pub fn relation_tables() -> (v: Vec<&'static str>)
    ensures
        str_views(v@) == spec_relation_tables(),
{
    let v = vec!["owns", "contains", "imports", "calls", "depends_on", "part_of_pattern"];
    assert(str_views(v@) =~= spec_relation_tables());
    v
}

/// Service for knowledge-graph edge queries.
#[derive(Debug, Clone, Copy, PartialEq, Eq)]
pub struct GraphService;

impl GraphService {
    /// The relation tables that exist, from an `INFO FOR DB` reply, in
    /// query order. A fresh, unmigrated database (no `tables` object, or a
    /// reply that is not an object) has none, which is no error.
    pub fn existing_tables(info: &InfoReply) -> (t: Vec<&'static str>)
        ensures
            str_views(t@) == match *info {
                InfoReply::Object(Some(keys)) => spec_present(
                    spec_relation_tables(),
                    string_views(keys@),
                ),
                _ => Seq::empty(),
            },
    {
        match info {
            InfoReply::Object(Some(keys)) => {
                let all = relation_tables();
                let r = select_names(&all, keys, true);
                proof {
                    let pv = string_views(keys@);
                    assert((|t: Seq<char>| pv.contains(t) == true) =~= (|t: Seq<char>|
                        pv.contains(t)));
                }
                r
            },
            _ => {
                let v: Vec<&'static str> = Vec::new();
                assert(str_views(v@) =~= Seq::<Seq<char>>::empty());
                v
            },
        }
    }

    /// The statement reading up to 500 edges of a relation table.
    pub fn list_all_sql(table: &str) -> (s: String)
        ensures
            s@ == "SELECT * FROM "@ + table@ + " LIMIT 500"@,
    {
        let mut s = "SELECT * FROM ".to_string();
        s.append(table);
        s.append(" LIMIT 500");
        s
    }

    /// The statement reading up to 200 edges of a relation table that
    /// start or end at the project.
    pub fn list_by_project_sql(table: &str) -> (s: String)
        ensures
            s@ == "SELECT * FROM "@ + table@
                + " WHERE out = $project_id OR in = $project_id LIMIT 200"@,
    {
        let mut s = "SELECT * FROM ".to_string();
        s.append(table);
        s.append(" WHERE out = $project_id OR in = $project_id LIMIT 200");
        s
    }
}

} // verus!
