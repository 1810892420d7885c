//! Listing, fetching and deleting indexed file metadata: the query a
//! listing runs, its page window, and the errors of a lookup.
use vstd::prelude::*;
use vstd::string::StringExecFns;

use crate::service::ServiceError;
use crate::util::{record_id_parses, record_id_value};

verus! {

/// Filter parameters for listing `file_data` records.
#[derive(Debug, Clone, Default, PartialEq, Eq)]
pub struct FileDataFilterParams {
    pub page: Option<u64>,
    pub limit: Option<u64>,
    pub project_id: Option<String>,
    pub path_filter: Option<String>,
    pub purpose_filter: Option<String>,
}

/// Service for querying and managing `file_data` records.
#[derive(Debug, Clone, Copy, PartialEq, Eq)]
pub struct FileDataService;

/// A listing's statement and its page window.
#[derive(Debug, Clone, PartialEq, Eq)]
pub struct FileDataQuery {
    pub sql: String,
    pub limit: u64,
    pub start: u64,
}

/// The page size of a listing: 50 unless given.
pub open spec fn page_limit(p: FileDataFilterParams) -> u64 {
    match p.limit {
        Some(l) => l,
        None => 50,
    }
}

/// The page of a listing: the first unless given.
pub open spec fn page_number(p: FileDataFilterParams) -> u64 {
    match p.page {
        Some(n) => n,
        None => 1,
    }
}

/// The number of records skipped before the page: the pages before it
/// (none for page 0 or 1) times the page size.
pub open spec fn page_start(p: FileDataFilterParams) -> int {
    let page = page_number(p);
    let before: int = if page >= 1 { page - 1 } else { 0 };
    before * page_limit(p)
}

/// The listing's statement: every `file_data` record, narrowed to the
/// project when one is given, and to paths and purposes containing the
/// filters (case-insensitively) when given, newest first, one page.
pub open spec fn list_sql(p: FileDataFilterParams) -> Seq<char> {
    "SELECT * FROM file_data WHERE 1=1"@ + (if p.project_id is Some {
        " AND project_id = $project_id"@
    } else {
        Seq::empty()
    }) + (if p.path_filter is Some {
        " AND string::lowercase(path) CONTAINS string::lowercase($path_filter)"@
    } else {
        Seq::empty()
    }) + (if p.purpose_filter is Some {
        " AND string::lowercase(purpose) CONTAINS string::lowercase($purpose_filter)"@
    } else {
        Seq::empty()
    }) + " ORDER BY indexed_at DESC LIMIT $limit START $start"@
}

impl FileDataService {
    /// The statement and page window of a listing. The start of the window
    /// must fit in a `u64`.
    pub fn list_query(params: &FileDataFilterParams) -> (q: FileDataQuery)
        requires
            page_start(*params) <= u64::MAX,
        ensures
            q.sql@ == list_sql(*params),
            q.limit == page_limit(*params),
            q.start as int == page_start(*params),
    {
        let page: u64 = match params.page {
            Some(n) => n,
            None => 1,
        };
        let limit: u64 = match params.limit {
            Some(l) => l,
            None => 50,
        };
        let before: u64 = page.saturating_sub(1);
        assert(before as int * limit as int == page_start(*params));
        let start: u64 = before * limit;
        let mut sql = "SELECT * FROM file_data WHERE 1=1".to_string();
        if params.project_id.is_some() {
            sql.append(" AND project_id = $project_id");
        }
        if params.path_filter.is_some() {
            sql.append(" AND string::lowercase(path) CONTAINS string::lowercase($path_filter)");
        }
        if params.purpose_filter.is_some() {
            sql.append(
                " AND string::lowercase(purpose) CONTAINS string::lowercase($purpose_filter)",
            );
        }
        sql.append(" ORDER BY indexed_at DESC LIMIT $limit START $start");
        assert(sql@ =~= list_sql(*params));
        FileDataQuery { sql, limit, start }
    }

    /// Parses the project a listing is narrowed to, refusing text that is
    /// not a record id with the parser's reason.
    pub fn parse_project_filter(project_id: &str) -> (r: Result<surrealdb_types::RecordId, ServiceError>)
        ensures
            r is Ok <==> record_id_parses(project_id@),
            r matches Ok(rid) ==> crate::util::parsed_record_id(project_id@) == Some(rid),
            r matches Err(e) ==> (e matches ServiceError::Validation(m) && crate::text::starts_with(
                m@,
                "invalid project_id: "@,
            )),
    {
        match record_id_value(project_id) {
            Ok(rid) => Ok(rid),
            Err(e) => {
                let ghost prefix = "invalid project_id: "@;
                let mut m = "invalid project_id: ".to_string();
                m.append(e.reason.as_str());
                assert(m@.subrange(0, prefix.len() as int) =~= prefix);
                Err(ServiceError::Validation(m))
            },
        }
    }

    /// Parses the id of a record to fetch, refusing text that is not a
    /// record id with the parser's reason.
    pub fn parse_record_id(id: &str) -> (r: Result<surrealdb_types::RecordId, ServiceError>)
        ensures
            r is Ok <==> record_id_parses(id@),
            r matches Ok(rid) ==> crate::util::parsed_record_id(id@) == Some(rid),
            r matches Err(e) ==> (e matches ServiceError::Validation(m) && crate::text::starts_with(
                m@,
                "invalid file_data id: "@,
            )),
    {
        match record_id_value(id) {
            Ok(rid) => Ok(rid),
            Err(e) => {
                let ghost prefix = "invalid file_data id: "@;
                let mut m = "invalid file_data id: ".to_string();
                m.append(e.reason.as_str());
                assert(m@.subrange(0, prefix.len() as int) =~= prefix);
                Err(ServiceError::Validation(m))
            },
        }
    }

    /// The error of a fetch that found no record with `id`.
    pub fn not_found(id: &str) -> (e: ServiceError)
        ensures
            e matches ServiceError::NotFound(m) && m@ == "file_data not found: "@ + id@,
    {
        let mut m = "file_data not found: ".to_string();
        m.append(id);
        ServiceError::NotFound(m)
    }
}

/// The condition that narrows a listing to a project.
pub open spec fn project_clause() -> Seq<char> {
    " AND project_id = $project_id"@
}

/// The condition that narrows a listing to paths containing the filter.
pub open spec fn path_clause() -> Seq<char> {
    " AND string::lowercase(path) CONTAINS string::lowercase($path_filter)"@
}

/// The condition that narrows a listing to purposes containing the filter.
pub open spec fn purpose_clause() -> Seq<char> {
    " AND string::lowercase(purpose) CONTAINS string::lowercase($purpose_filter)"@
}

/// Each filter a listing is given narrows it: with a project, a path
/// filter or a purpose filter, the listing's statement holds the
/// condition on that column, whatever the other filters and the page.
pub proof fn lemma_listing_filters_narrow(p: FileDataFilterParams)
    ensures
        p.project_id is Some ==> crate::text::contains_seq(list_sql(p), project_clause()),
        p.path_filter is Some ==> crate::text::contains_seq(list_sql(p), path_clause()),
        p.purpose_filter is Some ==> crate::text::contains_seq(list_sql(p), purpose_clause()),
{
    let a = "SELECT * FROM file_data WHERE 1=1"@;
    let b = if p.project_id is Some { project_clause() } else { Seq::empty() };
    let c = if p.path_filter is Some { path_clause() } else { Seq::empty() };
    let d = if p.purpose_filter is Some { purpose_clause() } else { Seq::empty() };
    let e = " ORDER BY indexed_at DESC LIMIT $limit START $start"@;
    let s = list_sql(p);
    assert(s == a + b + c + d + e);
    if p.project_id is Some {
        let i = a.len() as int;
        assert(s.subrange(i, i + b.len()) =~= b);
    }
    if p.path_filter is Some {
        let i = (a.len() + b.len()) as int;
        assert(s.subrange(i, i + c.len()) =~= c);
    }
    if p.purpose_filter is Some {
        let i = (a.len() + b.len() + c.len()) as int;
        assert(s.subrange(i, i + d.len()) =~= d);
    }
}

} // verus!
