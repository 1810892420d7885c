//! Reset planning for the `db reset` workflow: which schema tables may be
//! cleared, which ones a request clears, the statements that count and
//! clear them, and how a count reply is read.
use vstd::prelude::*;
use vstd::string::StringExecFns;

use crate::db::export::InfoReply;
use crate::schema::migration::registry::{expected_tables, spec_expected_tables};
use crate::schema::migration::run::{select_names, spec_present};
use crate::service::ServiceError;
use crate::text::string_views;

verus! {

/// Which tables to clear.
#[derive(Debug, Clone, PartialEq, Eq)]
pub enum ResetMode {
    /// Clear every resettable schema table.
    All,
    /// Clear only the named tables.
    Selected(Vec<String>),
}

/// Result of a completed reset: each cleared table and the number of
/// records deleted from it.
#[derive(Debug, Clone, PartialEq, Eq)]
pub struct ResetSummary {
    pub cleared: Vec<(String, u64)>,
}

/// The views of a list of static names.
pub open spec fn str_views(v: Seq<&str>) -> Seq<Seq<char>> {
    v.map_values(|s: &str| s@)
}

/// The schema tables that exist and can be reset, from an `INFO FOR DB`
/// reply: the canonical tables, in canonical order, that the reply's
/// `tables` object lists. Internal errors as for the export's table list.
pub fn resettable_tables(info: &InfoReply) -> (r: Result<Vec<&'static str>, ServiceError>)
    ensures
        match *info {
            InfoReply::Object(Some(keys)) => r matches Ok(t) && str_views(t@) == spec_present(
                spec_expected_tables(),
                string_views(keys@),
            ),
            InfoReply::Object(None) => r matches Err(ServiceError::Internal(m)) && m@
                == "INFO FOR DB returned no 'tables' key"@,
            InfoReply::Other => r matches Err(ServiceError::Internal(m)) && m@
                == "INFO FOR DB returned unexpected format"@,
        },
{
    match info {
        InfoReply::Object(Some(keys)) => {
            let canonical = expected_tables();
            let r = select_names(&canonical, keys, true);
            proof {
                let pv = string_views(keys@);
                assert((|t: Seq<char>| pv.contains(t) == true) =~= (|t: Seq<char>| pv.contains(t)));
            }
            Ok(r)
        },
        InfoReply::Object(None) => Err(
            ServiceError::Internal("INFO FOR DB returned no 'tables' key".to_string()),
        ),
        InfoReply::Other => Err(
            ServiceError::Internal("INFO FOR DB returned unexpected format".to_string()),
        ),
    }
}

/// The tables a reset clears: every canonical table for `All`; for
/// `Selected`, the canonical tables that are named, in canonical order
/// (names that are not canonical tables are dropped).
pub open spec fn spec_reset_targets(mode: ResetMode) -> Seq<Seq<char>> {
    match mode {
        ResetMode::All => spec_expected_tables(),
        ResetMode::Selected(names) => spec_present(spec_expected_tables(), string_views(names@)),
    }
}

/// The tables that `mode` clears.
pub fn reset_targets(mode: &ResetMode) -> (t: Vec<&'static str>)
    ensures
        str_views(t@) == spec_reset_targets(*mode),
{
    let canonical = expected_tables();
    match mode {
        ResetMode::All => canonical,
        ResetMode::Selected(names) => {
            let r = select_names(&canonical, names, true);
            proof {
                let pv = string_views(names@);
                assert((|t: Seq<char>| pv.contains(t) == true) =~= (|t: Seq<char>| pv.contains(t)));
            }
            r
        },
    }
}

/// The statement that counts a table's records.
pub fn count_sql(table: &str) -> (s: String)
    ensures
        s@ == "SELECT count() AS n FROM "@ + table@ + " GROUP ALL"@,
{
    let mut s = "SELECT count() AS n FROM ".to_string();
    s.append(table);
    s.append(" GROUP ALL");
    s
}

/// The statement that clears a table.
pub fn delete_sql(table: &str) -> (s: String)
    ensures
        s@ == "DELETE FROM "@ + table@,
{
    let mut s = "DELETE FROM ".to_string();
    s.append(table);
    s
}

/// The count read from a `SELECT count() AS n` reply, given the `n` of its
/// first row when that row is an object whose `n` is an integer: that
/// integer taken as a `u64` (two's complement for a negative one), and `0`
/// for a missing or malformed reply rather than a failure.
pub fn extract_count(n: Option<i64>) -> (c: u64)
    ensures
        c as int == match n {
            Some(v) => if v >= 0 { v as int } else { v + 0x1_0000_0000_0000_0000 },
            None => 0,
        },
{
    match n {
        Some(v) => {
            let c = #[verifier::truncate] (v as u64);
            assert(v < 0 ==> c as int == v + 0x1_0000_0000_0000_0000) by (bit_vector)
                requires
                    c == #[verifier::truncate] (v as u64),
            ;
            assert(v >= 0 ==> c as int == v as int) by (bit_vector)
                requires
                    c == #[verifier::truncate] (v as u64),
            ;
            c
        },
        None => 0,
    }
}

} // verus!
