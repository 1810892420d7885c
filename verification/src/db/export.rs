//! Export planning for the `db export` workflow: which tables are exported,
//! which filters apply to each, the query for each table, the order of the
//! exported rows and the files that result. The database and file system
//! work around these decisions is done by the caller.
use vstd::prelude::*;
use vstd::string::StringExecFns;

use surrealdb_types::RecordId;

use crate::service::ServiceError;
use crate::text::{
    chars_of, contains_string, decimal, join, starts_with, u64_to_decimal, join_strings, lex_le, sort_strings, sorted_lex, string_le, string_views,
};
use crate::util::{record_id_parses, record_id_value, InvalidRecordId};

verus! {

/// A single row filter applied to every exported table that has `field`:
/// rows are kept whose `field` links to the record `record` (`table:key`).
#[derive(Debug, Clone, PartialEq, Eq)]
pub struct ExportFilter {
    pub field: String,
    pub record: String,
}

impl ExportFilter {
    /// Builds a filter for a record-link field from a `"table:key"` string
    /// (e.g. `ExportFilter::record("project_id", "projects:p1")`), failing
    /// when `record` does not parse as a record id.
    pub fn record(field: &str, record: &str) -> (r: Result<ExportFilter, InvalidRecordId>)
        ensures
            r is Ok <==> record_id_parses(record@),
            !record@.contains(':') ==> r is Err,
            record@.contains(':') && !record@.contains('`') ==> r is Ok,
            r matches Ok(f) ==> f.field@ == field@ && f.record@ == record@,
            r matches Err(e) ==> e.record@ == record@,
    {
        match record_id_value(record) {
            Ok(_) => Ok(ExportFilter { field: field.to_string(), record: record.to_string() }),
            Err(e) => Err(e),
        }
    }
}

/// One exported table.
#[derive(Debug, Clone, PartialEq, Eq)]
pub struct ExportFile {
    pub table: String,
    pub filename: String,
    pub rows: u64,
}

impl ExportFile {
    /// The file written for `table`: `<table>.json`, holding `rows` rows.
    pub fn for_table(table: &str, rows: u64) -> (f: ExportFile)
        ensures
            f.table@ == table@,
            f.filename@ == table@ + ".json"@,
            f.rows == rows,
    {
        let mut filename = table.to_string();
        filename.append(".json");
        ExportFile { table: table.to_string(), filename, rows }
    }
}

/// Complete result of an export run.
#[derive(Debug, Clone, PartialEq, Eq)]
pub struct ExportSummary {
    pub files: Vec<ExportFile>,
    pub skipped_filters: Vec<String>,
    pub duration_ms: u64,
}

/// Tables whose name starts with `_` are the database's own.
pub open spec fn is_internal_table(name: Seq<char>) -> bool {
    name.len() > 0 && name[0] == '_'
}

/// The names that are not internal tables, in their order.
pub open spec fn public_tables(names: Seq<Seq<char>>) -> Seq<Seq<char>> {
    names.filter(|n: Seq<char>| !is_internal_table(n))
}

/// Keeps the non-internal table names and sorts them alphabetically.
pub fn list_tables_filter(names: Vec<String>) -> (r: Vec<String>)
    ensures
        sorted_lex(string_views(r@)),
        string_views(r@).to_multiset() == public_tables(string_views(names@)).to_multiset(),
{
    let ghost views = string_views(names@);
    let mut kept: Vec<String> = Vec::new();
    let mut i: usize = 0;
    while i < names.len()
        invariant
            i <= names@.len(),
            views == string_views(names@),
            string_views(kept@) == public_tables(views.take(i as int)),
        decreases names@.len() - i,
    {
        let name = &names[i];
        let cs = chars_of(name.as_str());
        let internal = cs.len() > 0 && cs[0] == '_';
        proof {
            assert(views.take(i + 1) =~= views.take(i as int).push(views[i as int]));
            views.take(i as int).lemma_filter_push(
                views[i as int],
                |n: Seq<char>| !is_internal_table(n),
            );
        }
        if !internal {
            kept.push(name.clone());
            assert(string_views(kept@) =~= public_tables(views.take(i as int)).push(views[i as int]));
        }
        i = i + 1;
    }
    assert(views.take(names@.len() as int) =~= views);
    sort_strings(kept)
}

/// The reply to an `INFO FOR ...` query, as far as the export reads it: an
/// object with the keys of its named sub-object (`tables` or `fields`) when
/// that entry is itself an object, or any other value.
#[derive(Debug, Clone, PartialEq, Eq)]
pub enum InfoReply {
    Object(Option<Vec<String>>),
    Other,
}

/// The tables listed by an `INFO FOR DB` reply, without the internal ones,
/// sorted; an internal error when the reply has no `tables` object or is not
/// an object.
pub fn tables_in_info(info: InfoReply) -> (r: Result<Vec<String>, ServiceError>)
    ensures
        match info {
            InfoReply::Object(Some(keys)) => r matches Ok(t) && sorted_lex(string_views(t@))
                && string_views(t@).to_multiset() == public_tables(
                string_views(keys@),
            ).to_multiset(),
            InfoReply::Object(None) => r matches Err(ServiceError::Internal(m)) && m@
                == "INFO FOR DB returned no 'tables' key"@,
            InfoReply::Other => r matches Err(ServiceError::Internal(m)) && m@
                == "INFO FOR DB returned unexpected format"@,
        },
{
    match info {
        InfoReply::Object(Some(keys)) => Ok(list_tables_filter(keys)),
        InfoReply::Object(None) => Err(
            ServiceError::Internal("INFO FOR DB returned no 'tables' key".to_string()),
        ),
        InfoReply::Other => Err(
            ServiceError::Internal("INFO FOR DB returned unexpected format".to_string()),
        ),
    }
}

/// Whether an `INFO FOR TABLE <table>` reply lists `field`: false when the
/// reply has no `fields` object, an internal error when it is not an object.
pub fn info_has_field(info: &InfoReply, table: &str, field: &str) -> (r: Result<bool, ServiceError>)
    ensures
        match *info {
            InfoReply::Object(Some(keys)) => r == Ok::<bool, ServiceError>(
                exists|i: int| 0 <= i < keys@.len() && (#[trigger] keys@[i])@ == field@,
            ),
            InfoReply::Object(None) => r == Ok::<bool, ServiceError>(false),
            InfoReply::Other => r matches Err(ServiceError::Internal(m)) && m@ == "INFO FOR TABLE "@
                + table@ + " returned unexpected format"@,
        },
{
    match info {
        InfoReply::Object(Some(keys)) => Ok(contains_string(keys.as_slice(), field)),
        InfoReply::Object(None) => Ok(false),
        InfoReply::Other => {
            let mut m = "INFO FOR TABLE ".to_string();
            m.append(table);
            m.append(" returned unexpected format");
            Err(ServiceError::Internal(m))
        },
    }
}

/// The requested tables that are not among the present ones, in request
/// order (repeats kept).
pub open spec fn missing_tables(requested: Seq<Seq<char>>, present: Seq<Seq<char>>) -> Seq<
    Seq<char>,
> {
    requested.filter(|t: Seq<char>| !present.contains(t))
}

/// The requested tables that the database does not have, sorted.
pub fn unknown_tables(requested: &Vec<String>, present: &Vec<String>) -> (r: Vec<String>)
    ensures
        sorted_lex(string_views(r@)),
        string_views(r@).to_multiset() == missing_tables(
            string_views(requested@),
            string_views(present@),
        ).to_multiset(),
{
    let ghost req = string_views(requested@);
    let ghost pre = string_views(present@);
    let mut out: Vec<String> = Vec::new();
    let mut i: usize = 0;
    while i < requested.len()
        invariant
            i <= requested@.len(),
            req == string_views(requested@),
            pre == string_views(present@),
            string_views(out@) == missing_tables(req.take(i as int), pre),
        decreases requested@.len() - i,
    {
        let known = contains_string(present.as_slice(), requested[i].as_str());
        proof {
            assert(req.take(i + 1) =~= req.take(i as int).push(req[i as int]));
            req.take(i as int).lemma_filter_push(req[i as int], |t: Seq<char>| !pre.contains(t));
            if pre.contains(req[i as int]) {
                let k = choose|k: int| 0 <= k < pre.len() && pre[k] == req[i as int];
                assert(present@[k]@ == requested@[i as int]@);
            }
            if known {
                let k = choose|k: int| 0 <= k < present@.len() && (#[trigger] present@[k])@
                    == requested@[i as int]@;
                assert(pre[k] == req[i as int]);
            }
        }
        if !known {
            out.push(requested[i].clone());
            assert(string_views(out@) =~= missing_tables(req.take(i as int), pre).push(
                req[i as int],
            ));
        }
        i = i + 1;
    }
    assert(req.take(requested@.len() as int) =~= req);
    sort_strings(out)
}

/// Refuses an export that names a table the database does not have: the
/// error lists every unknown name, sorted, separated by `, `.
pub fn check_tables(requested: &Vec<String>, present: &Vec<String>) -> (r: Result<(), ServiceError>)
    ensures
        r is Ok <==> missing_tables(string_views(requested@), string_views(present@)).len() == 0,
        r matches Err(e) ==> exists|u: Seq<Seq<char>>|
            sorted_lex(u) && u.to_multiset() == missing_tables(
                string_views(requested@),
                string_views(present@),
            ).to_multiset() && e == ServiceError::Validation(e->Validation_0) && e->Validation_0@
                == "unknown table(s): "@ + join(u, ", "@),
{
    broadcast use vstd::seq_lib::group_to_multiset_ensures;
    let unknown = unknown_tables(requested, present);
    let ghost missing = missing_tables(string_views(requested@), string_views(present@));
    proof {
        string_views(unknown@).to_multiset_ensures();
        missing.to_multiset_ensures();
    }
    if unknown.len() == 0 {
        assert(string_views(unknown@).len() == 0);
        Ok(())
    } else {
        let mut m = "unknown table(s): ".to_string();
        let listed = join_strings(&unknown, ", ");
        m.append(listed.as_str());
        assert(unknown@.map_values(|p: String| p@) =~= string_views(unknown@));
        Err(ServiceError::Validation(m))
    }
}

/// The record id each filter links to, paired with the filter's field, in
/// filter order; the first filter whose record does not parse is refused
/// with a validation error that names its field and the parser's reason.
pub fn filter_params(filters: &Vec<ExportFilter>) -> (r: Result<Vec<(String, RecordId)>, ServiceError>)
    ensures
        r is Ok <==> forall|i: int| 0 <= i < filters@.len() ==> record_id_parses(
            (#[trigger] filters@[i]).record@,
        ),
        r matches Ok(v) ==> v@.len() == filters@.len() && forall|i: int|
            0 <= i < filters@.len() ==> (#[trigger] v@[i]).0@ == filters@[i].field@
                && crate::util::parsed_record_id(filters@[i].record@) == Some(v@[i].1),
        r matches Err(e) ==> exists|i: int|
            0 <= i < filters@.len() && !record_id_parses((#[trigger] filters@[i]).record@) && (
            forall|k: int| 0 <= k < i ==> record_id_parses((#[trigger] filters@[k]).record@))
                && e == ServiceError::Validation(e->Validation_0) && starts_with(
                e->Validation_0@,
                "invalid record id for '"@ + filters@[i].field@ + "': "@,
            ),
{
    let mut out: Vec<(String, RecordId)> = Vec::new();
    let mut i: usize = 0;
    while i < filters.len()
        invariant
            i <= filters@.len(),
            out@.len() == i,
            forall|k: int| 0 <= k < i ==> record_id_parses((#[trigger] filters@[k]).record@),
            forall|k: int| 0 <= k < i ==> (#[trigger] out@[k]).0@ == filters@[k].field@
                && crate::util::parsed_record_id(filters@[k].record@) == Some(out@[k].1),
        decreases filters@.len() - i,
    {
        let f = &filters[i];
        match record_id_value(f.record.as_str()) {
            Ok(rid) => {
                out.push((f.field.clone(), rid));
            },
            Err(e) => {
                let mut m = "invalid record id for '".to_string();
                m.append(f.field.as_str());
                m.append("': ");
                let ghost prefix = "invalid record id for '"@ + f.field@ + "': "@;
                let ghost before = m@;
                m.append(e.reason.as_str());
                assert(before == prefix);
                assert(m@.subrange(0, prefix.len() as int) =~= prefix);
                assert(!record_id_parses(filters@[i as int].record@));
                return Err(ServiceError::Validation(m));
            },
        }
        i = i + 1;
    }
    Ok(out)
}

/// The positions of the filters that apply to a table (whose field the
/// table defines), in filter order.
pub open spec fn applied_filters(has: Seq<bool>) -> Seq<int>
    decreases has.len(),
{
    if has.len() == 0 {
        Seq::empty()
    } else if has.last() {
        applied_filters(has.drop_last()).push(has.len() - 1)
    } else {
        applied_filters(has.drop_last())
    }
}

/// One note per filter that does not apply to `table`, in filter order.
pub open spec fn skipped_notes(table: Seq<char>, fields: Seq<Seq<char>>, has: Seq<bool>) -> Seq<
    Seq<char>,
>
    decreases has.len(),
{
    if has.len() == 0 {
        Seq::empty()
    } else if has.last() {
        skipped_notes(table, fields, has.drop_last())
    } else {
        skipped_notes(table, fields, has.drop_last()).push(
            "skipping filter: "@ + table + " has no "@ + fields[has.len() - 1],
        )
    }
}

/// The name of the `k`-th query parameter: `f0`, `f1`, ...
pub open spec fn param_name(k: nat) -> Seq<char> {
    "f"@ + decimal(k)
}

/// The condition for each applied filter: `<field> = $f<k>` for the `k`-th
/// applied one.
pub open spec fn where_terms(fields: Seq<Seq<char>>, applied: Seq<int>) -> Seq<Seq<char>> {
    Seq::new(applied.len(), |k: int| fields[applied[k]] + " = $"@ + param_name(k as nat))
}

/// `SELECT * FROM <table>`, with ` WHERE ` and the conditions joined by
/// ` AND ` when there are any.
pub open spec fn select_sql(table: Seq<char>, terms: Seq<Seq<char>>) -> Seq<char> {
    if terms.len() == 0 {
        "SELECT * FROM "@ + table
    } else {
        "SELECT * FROM "@ + table + " WHERE "@ + join(terms, " AND "@)
    }
}

/// The query for one exported table: its text, the parameters to bind (the
/// parameter's name and the position of the filter whose record it takes),
/// and a note for each filter the table cannot take.
#[derive(Debug, Clone, PartialEq, Eq)]
pub struct TableQuery {
    pub sql: String,
    pub binds: Vec<(String, usize)>,
    pub skipped: Vec<String>,
}

/// Builds the query for `table` given the filters' fields and, for each
/// filter, whether the table defines its field.
pub fn table_query(table: &str, fields: &Vec<String>, has_field: &Vec<bool>) -> (q: TableQuery)
    requires
        fields@.len() == has_field@.len(),
    ensures
        q.binds@.len() == applied_filters(has_field@).len(),
        forall|k: int|
            0 <= k < q.binds@.len() ==> (#[trigger] q.binds@[k]).0@ == param_name(k as nat)
                && q.binds@[k].1 == applied_filters(has_field@)[k],
        q.sql@ == select_sql(
            table@,
            where_terms(string_views(fields@), applied_filters(has_field@)),
        ),
        string_views(q.skipped@) == skipped_notes(table@, string_views(fields@), has_field@),
{
    let ghost fv = string_views(fields@);
    let mut terms: Vec<String> = Vec::new();
    let mut binds: Vec<(String, usize)> = Vec::new();
    let mut skipped: Vec<String> = Vec::new();
    let mut i: usize = 0;
    while i < fields.len()
        invariant
            i <= fields@.len(),
            fields@.len() == has_field@.len(),
            fv == string_views(fields@),
            binds@.len() == applied_filters(has_field@.take(i as int)).len(),
            forall|k: int|
                0 <= k < binds@.len() ==> (#[trigger] binds@[k]).0@ == param_name(k as nat)
                    && binds@[k].1 == applied_filters(has_field@.take(i as int))[k],
            string_views(terms@) == where_terms(fv, applied_filters(has_field@.take(i as int))),
            string_views(skipped@) == skipped_notes(table@, fv, has_field@.take(i as int)),
            forall|k: int| 0 <= k < applied_filters(has_field@.take(i as int)).len() ==> 0 <= (
            #[trigger] applied_filters(has_field@.take(i as int))[k]) < i,
        decreases fields@.len() - i,
    {
        let ghost before = has_field@.take(i as int);
        assert(has_field@.take(i + 1).drop_last() =~= before);
        assert(has_field@.take(i + 1).last() == has_field@[i as int]);
        if has_field[i] {
            let k = binds.len();
            let mut name = "f".to_string();
            let digits = u64_to_decimal(k as u64);
            name.append(digits.as_str());
            let mut term = fields[i].clone();
            term.append(" = $");
            term.append(name.as_str());
            assert(name@ == param_name(k as nat));
            assert(term@ == fv[i as int] + " = $"@ + param_name(k as nat));
            let ghost term_view = term@;
            let ghost old_terms = string_views(terms@);
            terms.push(term);
            binds.push((name, i));
            proof {
                let ap = applied_filters(has_field@.take(i + 1));
                assert(ap == applied_filters(before).push(i as int));
                let nt = string_views(terms@);
                assert(nt =~= old_terms.push(term_view));
                assert(old_terms.len() == k);
                let wt = where_terms(fv, ap);
                assert(nt.len() == wt.len());
                assert forall|j: int| 0 <= j < nt.len() implies nt[j] == wt[j] by {
                    if j < k {
                        assert(nt[j] == old_terms[j]);
                        assert(ap[j] == applied_filters(before)[j]);
                    }
                }
                assert(nt =~= wt);
            }
        } else {
            let mut note = "skipping filter: ".to_string();
            note.append(table);
            note.append(" has no ");
            note.append(fields[i].as_str());
            skipped.push(note);
            assert(string_views(skipped@) =~= skipped_notes(table@, fv, has_field@.take(i + 1)));
        }
        i = i + 1;
    }
    assert(has_field@.take(fields@.len() as int) =~= has_field@);
    let mut sql = "SELECT * FROM ".to_string();
    sql.append(table);
    if terms.len() > 0 {
        sql.append(" WHERE ");
        let cond = join_strings(&terms, " AND ");
        assert(terms@.map_values(|p: String| p@) =~= string_views(terms@));
        sql.append(cond.as_str());
    }
    TableQuery { sql, binds, skipped }
}

/// Row order of an export: rows with an `id` come first, ascending by the
/// id's text; rows without one come after them.
pub open spec fn id_le(a: Option<Seq<char>>, b: Option<Seq<char>>) -> bool {
    match (a, b) {
        (Some(x), Some(y)) => lex_le(x, y),
        (Some(_), None) => true,
        (None, Some(_)) => false,
        (None, None) => true,
    }
}

/// The ids of the rows, by their text.
pub open spec fn id_views(ids: Seq<Option<String>>) -> Seq<Option<Seq<char>>> {
    ids.map_values(|o: Option<String>| match o {
        Some(s) => Some(s@),
        None => None,
    })
}

/// Row `i` goes before row `j`: its id is ordered first, or the ids tie and
/// `i` came first (the sort is stable).
pub open spec fn row_before(ids: Seq<Option<Seq<char>>>, i: int, j: int) -> bool {
    if id_le(ids[i], ids[j]) && id_le(ids[j], ids[i]) {
        i <= j
    } else {
        id_le(ids[i], ids[j])
    }
}

proof fn lemma_id_total(a: Option<Seq<char>>, b: Option<Seq<char>>)
    ensures
        id_le(a, b) || id_le(b, a),
{
    if a is Some && b is Some {
        crate::text::lemma_lex_total(a->0, b->0);
    }
}

proof fn lemma_id_trans(a: Option<Seq<char>>, b: Option<Seq<char>>, c: Option<Seq<char>>)
    requires
        id_le(a, b),
        id_le(b, c),
    ensures
        id_le(a, c),
{
    if a is Some && b is Some && c is Some {
        crate::text::lemma_lex_trans(a->0, b->0, c->0);
    }
}

fn id_le_exec(a: &Option<String>, b: &Option<String>) -> (r: bool)
    ensures
        r == id_le(
            match *a {
                Some(s) => Some(s@),
                None => None,
            },
            match *b {
                Some(s) => Some(s@),
                None => None,
            },
        ),
{
    match (a, b) {
        (Some(x), Some(y)) => string_le(x.as_str(), y.as_str()),
        (Some(_), None) => true,
        (None, Some(_)) => false,
        (None, None) => true,
    }
}

/// The order in which exported rows are written, given each row's `id`
/// text (`None` for a row without one): a permutation of the row positions
/// that sorts by id, rows without an id last, ties kept in their original
/// order.
pub fn row_order(ids: &Vec<Option<String>>) -> (order: Vec<usize>)
    ensures
        order@.len() == ids@.len(),
        forall|p: int| 0 <= p < order@.len() ==> (#[trigger] order@[p]) < ids@.len(),
        forall|p: int, q: int|
            0 <= p < q < order@.len() ==> (#[trigger] order@[p]) != (#[trigger] order@[q]),
        forall|p: int, q: int|
            0 <= p < q < order@.len() ==> row_before(
                id_views(ids@),
                #[trigger] order@[p] as int,
                #[trigger] order@[q] as int,
            ),
{
    let ghost iv = id_views(ids@);
    let mut out: Vec<usize> = Vec::new();
    let mut i: usize = 0;
    while i < ids.len()
        invariant
            i <= ids@.len(),
            iv == id_views(ids@),
            out@.len() == i,
            forall|p: int| 0 <= p < out@.len() ==> (#[trigger] out@[p]) < i,
            forall|p: int, q: int|
                0 <= p < q < out@.len() ==> (#[trigger] out@[p]) != (#[trigger] out@[q]),
            forall|p: int, q: int|
                0 <= p < q < out@.len() ==> row_before(
                    iv,
                    #[trigger] out@[p] as int,
                    #[trigger] out@[q] as int,
                ),
        decreases ids@.len() - i,
    {
        let mut j: usize = 0;
        while j < out.len() && id_le_exec(&ids[out[j]], &ids[i])
            invariant
                j <= out@.len(),
                i < ids@.len(),
                iv == id_views(ids@),
                forall|p: int| 0 <= p < out@.len() ==> (#[trigger] out@[p]) < i,
                forall|p: int| 0 <= p < j ==> id_le(iv[#[trigger] out@[p] as int], iv[i as int]),
            decreases out@.len() - j,
        {
            j = j + 1;
        }
        let ghost old_out = out@;
        proof {
            if j < old_out.len() {
                assert(!id_le(iv[old_out[j as int] as int], iv[i as int]));
                lemma_id_total(iv[old_out[j as int] as int], iv[i as int]);
                assert forall|p: int| j <= p < old_out.len() implies !id_le(
                    iv[#[trigger] old_out[p] as int],
                    iv[i as int],
                ) by {
                    if p > j {
                        assert(row_before(iv, old_out[j as int] as int, old_out[p] as int));
                        if id_le(iv[old_out[p] as int], iv[i as int]) {
                            lemma_id_trans(
                                iv[old_out[j as int] as int],
                                iv[old_out[p] as int],
                                iv[i as int],
                            );
                        }
                    }
                }
            }
        }
        out.insert(j, i);
        proof {
            let nv = out@;
            assert(nv =~= old_out.insert(j as int, i));
            assert forall|p: int, q: int| 0 <= p < q < nv.len() implies row_before(
                iv,
                #[trigger] nv[p] as int,
                #[trigger] nv[q] as int,
            ) by {
                if q < j {
                    assert(nv[p] == old_out[p] && nv[q] == old_out[q]);
                } else if q == j {
                    assert(nv[p] == old_out[p]);
                    assert(id_le(iv[old_out[p] as int], iv[i as int]));
                } else if p == j {
                    assert(nv[q] == old_out[q - 1]);
                    assert(!id_le(iv[old_out[q - 1] as int], iv[i as int]));
                    lemma_id_total(iv[old_out[q - 1] as int], iv[i as int]);
                } else if p < j {
                    assert(nv[p] == old_out[p] && nv[q] == old_out[q - 1]);
                } else {
                    assert(nv[p] == old_out[p - 1] && nv[q] == old_out[q - 1]);
                }
            }
            assert forall|p: int, q: int| 0 <= p < q < nv.len() implies (#[trigger] nv[p]) != (
            #[trigger] nv[q]) by {
                if p < j && q < j {
                    assert(nv[p] == old_out[p] && nv[q] == old_out[q]);
                } else if p < j && q > j {
                    assert(nv[p] == old_out[p] && nv[q] == old_out[q - 1]);
                } else if p > j && q > j {
                    assert(nv[p] == old_out[p - 1] && nv[q] == old_out[q - 1]);
                } else if p == j {
                    assert(nv[q] == old_out[q - 1]);
                } else {
                    assert(nv[p] == old_out[p]);
                }
            }
            assert forall|p: int| 0 <= p < nv.len() implies (#[trigger] nv[p]) < i + 1 by {
                if p < j {
                    assert(nv[p] == old_out[p]);
                } else if p > j {
                    assert(nv[p] == old_out[p - 1]);
                }
            }
        }
        i = i + 1;
    }
    out
}

} // verus!
