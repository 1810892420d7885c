//! File search: validating a query, turning it into words, scoping it to
//! projects, the statement that finds candidate files, and the filtering,
//! scoring and ranking of what comes back.
use vstd::prelude::*;
use vstd::string::StringExecFns;
use vstd::string::StringSliceAdditionalSpecFns;

use crate::engine::error::EngineError;
use crate::text::{
    char_vec_views, chars_of, contains_chars, contains_seq, decimal, ends_with, join, lowercase, split_whitespace_chars,
    string_from_chars, to_lowercase, trim_end_char, trim_end_char_chars, words,
};

verus! {

/// A search request.
#[derive(Debug, Clone, PartialEq, Eq)]
pub struct SearchQuery {
    pub query: Option<String>,
    pub path: Option<String>,
    pub purpose: Option<String>,
    pub features: Option<Vec<String>>,
    pub language: Option<String>,
    pub framework: Option<String>,
    pub limit: Option<usize>,
    pub search_all_projects: Option<bool>,
}

/// `char::is_control`: the Unicode general category `Cc`, which is
/// U+0000..U+001F and U+007F..U+009F.
pub open spec fn is_control(c: char) -> bool {
    (c as u32) <= 0x1f || (0x7f <= (c as u32) && (c as u32) <= 0x9f)
}

/// A control character other than a line feed or a tab.
pub open spec fn is_invalid_control(c: char) -> bool {
    is_control(c) && c != '\n' && c != '\t'
}

/// The longest query text accepted, in bytes.
pub const MAX_QUERY_BYTES: usize = 1000;

/// Refuses query text longer than 1000 bytes, or holding a control
/// character other than a line feed or a tab.
pub fn validate_query(q: &str) -> (r: Result<(), EngineError>)
    ensures
        q.spec_bytes().len() > 1000 ==> (r matches Err(EngineError::Internal(m)) && m@
            == "query exceeds maximum length of 1000 characters"@),
        q.spec_bytes().len() <= 1000 && (exists|i: int|
            0 <= i < q@.len() && is_invalid_control(#[trigger] q@[i])) ==> (r matches Err(
            EngineError::Internal(m),
        ) && m@ == "query contains invalid control characters"@),
        q.spec_bytes().len() <= 1000 && (forall|i: int|
            0 <= i < q@.len() ==> !is_invalid_control(#[trigger] q@[i])) ==> r is Ok,
{
    if q.as_bytes().len() > MAX_QUERY_BYTES {
        return Err(
            EngineError::Internal("query exceeds maximum length of 1000 characters".to_string()),
        );
    }
    let cs = chars_of(q);
    let mut i: usize = 0;
    while i < cs.len()
        invariant
            i <= cs@.len(),
            cs@ == q@,
            q.spec_bytes().len() <= 1000,
            forall|k: int| 0 <= k < i ==> !is_invalid_control(#[trigger] cs@[k]),
        decreases cs@.len() - i,
    {
        let c = cs[i];
        let u = c as u32;
        if (u <= 0x1f || (0x7f <= u && u <= 0x9f)) && c != '\n' && c != '\t' {
            return Err(
                EngineError::Internal("query contains invalid control characters".to_string()),
            );
        }
        i = i + 1;
    }
    Ok(())
}

/// A query text ending in `*` asks for prefix matches: the marker (every
/// trailing `*`) is removed.
pub open spec fn spec_strip_marker(raw: Seq<char>) -> (Seq<char>, bool) {
    if ends_with(raw, seq!['*']) {
        (trim_end_char(raw, '*'), true)
    } else {
        (raw, false)
    }
}

/// The words of a query, lowercased, empty ones dropped.
pub open spec fn spec_query_tokens(text: Seq<char>) -> Seq<Seq<char>> {
    words(text).map_values(|w: Seq<char>| lowercase(w)).filter(|w: Seq<char>| w.len() > 0)
}

/// A query text taken apart: the text without its prefix marker, whether
/// it asks for prefix matches, and its lowercased words.
#[derive(Debug, Clone, PartialEq, Eq)]
pub struct QueryTerms {
    pub stripped: String,
    pub is_prefix: bool,
    pub tokens: Vec<String>,
}

/// Takes a query text apart (an absent query is the empty text).
pub fn query_terms(raw: &str) -> (t: QueryTerms)
    ensures
        t.stripped@ == spec_strip_marker(raw@).0,
        t.is_prefix == spec_strip_marker(raw@).1,
        t.tokens@.map_values(|s: String| s@) == spec_query_tokens(spec_strip_marker(raw@).0),
{
    let rv = chars_of(raw);
    let ends_star = rv.len() > 0 && rv[rv.len() - 1] == '*';
    proof {
        if rv@.len() > 0 {
            let tail = rv@.subrange(rv@.len() - 1, rv@.len() as int);
            assert(tail =~= seq![rv@.last()]);
            if ends_star {
                assert(tail =~= seq!['*']);
            } else {
                assert(tail[0] != seq!['*'][0]);
            }
        }
        assert(ends_with(raw@, seq!['*']) == ends_star);
    }
    let (stripped_chars, is_prefix) = if ends_star {
        (trim_end_char_chars(rv.as_slice(), '*'), true)
    } else {
        (rv, false)
    };
    let stripped = string_from_chars(stripped_chars.as_slice());
    let ws = split_whitespace_chars(stripped_chars.as_slice());
    let ghost wv = char_vec_views(ws@);
    let ghost lowered = wv.map_values(|w: Seq<char>| lowercase(w));
    let ghost pred = |w: Seq<char>| w.len() > 0;
    let mut tokens: Vec<String> = Vec::new();
    let mut i: usize = 0;
    while i < ws.len()
        invariant
            i <= ws@.len(),
            wv == char_vec_views(ws@),
            lowered == wv.map_values(|w: Seq<char>| lowercase(w)),
            pred == (|w: Seq<char>| w.len() > 0),
            tokens@.map_values(|s: String| s@) == lowered.take(i as int).filter(pred),
        decreases ws@.len() - i,
    {
        let word = string_from_chars(ws[i].as_slice());
        let low = to_lowercase(word.as_str());
        proof {
            assert(lowered.take(i + 1) =~= lowered.take(i as int).push(lowered[i as int]));
            lowered.take(i as int).lemma_filter_push(lowered[i as int], pred);
        }
        if low.as_str().is_empty() == false {
            let ghost before = tokens@.map_values(|s: String| s@);
            let ghost lv = low@;
            tokens.push(low);
            assert(tokens@.map_values(|s: String| s@) =~= before.push(lv));
        }
        i = i + 1;
    }
    assert(lowered.take(ws@.len() as int) =~= lowered);
    QueryTerms { stripped, is_prefix, tokens }
}

/// A value bound to a parameter of a search statement: nothing (`NONE`),
/// a text, or the active project's record id.
#[derive(Debug, Clone, PartialEq, Eq)]
pub enum BindValue {
    Absent,
    Text(String),
    CurrentProject,
}

/// `v` is the text `t`.
pub open spec fn is_text(v: BindValue, t: Seq<char>) -> bool {
    v matches BindValue::Text(s) && s@ == t
}

/// The project scope of a search: a condition on `project_id` (empty for
/// a search over every project) and the parameters it uses.
#[derive(Debug, Clone, PartialEq, Eq)]
pub struct ProjectScope {
    pub clause: String,
    pub binds: Vec<(String, BindValue)>,
}

/// The search covers every project.
pub open spec fn searches_all(q: SearchQuery) -> bool {
    q.search_all_projects == Some(true)
}

/// The query names a language or a framework itself, overriding the
/// active project's stored ones.
pub open spec fn has_override(q: SearchQuery) -> bool {
    q.language is Some || q.framework is Some
}

/// A text, unless it is empty.
pub open spec fn non_empty(t: Option<Seq<char>>) -> Option<Seq<char>> {
    match t {
        Some(s) => if s.len() > 0 {
            Some(s)
        } else {
            None
        },
        None => None,
    }
}

/// The view of an optional string.
pub open spec fn opt_text(t: Option<String>) -> Option<Seq<char>> {
    match t {
        Some(s) => Some(s@),
        None => None,
    }
}

/// The language and framework a scoped search filters projects by: the
/// query's own when it names either, otherwise the active project's
/// stored ones; empty texts count as absent.
pub open spec fn scope_filters(
    q: SearchQuery,
    stored_language: Option<Seq<char>>,
    stored_framework: Option<Seq<char>>,
) -> (Option<Seq<char>>, Option<Seq<char>>) {
    if has_override(q) {
        (non_empty(opt_text(q.language)), non_empty(opt_text(q.framework)))
    } else {
        (non_empty(stored_language), non_empty(stored_framework))
    }
}

/// The condition that scopes a search to projects of a language (and,
/// when given, a framework).
pub open spec fn language_clause(framework: bool) -> Seq<char> {
    "project_id IN (SELECT VALUE id FROM projects WHERE string::lowercase(language) = string::lowercase($lang)"@
        + (if framework {
        " AND string::lowercase(framework) = string::lowercase($fw)"@
    } else {
        Seq::empty()
    }) + ")"@
}

/// The condition that scopes a search to projects of a framework.
pub open spec fn framework_clause() -> Seq<char> {
    "project_id IN (SELECT VALUE id FROM projects WHERE string::lowercase(framework) = string::lowercase($fw))"@
}

fn non_empty_text(t: Option<&String>) -> (r: Option<String>)
    ensures
        r matches Some(s) ==> (t matches Some(u) && s@ == u@ && s@.len() > 0),
        r is None ==> (t is None || t->0@.len() == 0),
{
    match t {
        Some(s) => {
            let cs = chars_of(s.as_str());
            if cs.len() > 0 {
                Some(s.clone())
            } else {
                None
            }
        },
        None => None,
    }
}

/// Whether scoping the search needs the active project's stored language
/// and framework: only for a scoped search whose query names neither.
pub fn needs_stored_metadata(query: &SearchQuery) -> (b: bool)
    ensures
        b == (!searches_all(*query) && !has_override(*query)),
{
    !(query.search_all_projects == Some(true)) && query.language.is_none()
        && query.framework.is_none()
}

/// The project scope of a search. A search over every project has none.
/// Otherwise, with no language or framework to filter by, it is the active
/// project; with a language, every project of that language (and of the
/// framework too when there is one); with only a framework, every project
/// of that framework. Comparisons are case-insensitive.
pub fn resolve_project_clause(
    query: &SearchQuery,
    stored_language: Option<String>,
    stored_framework: Option<String>,
) -> (p: ProjectScope)
    ensures
        searches_all(*query) ==> p.clause@.len() == 0 && p.binds@.len() == 0,
        !searches_all(*query) ==> match scope_filters(
            *query,
            opt_text(stored_language),
            opt_text(stored_framework),
        ) {
            (None, None) => p.clause@ == "project_id = $project_id"@ && p.binds@.len() == 1
                && p.binds@[0].0@ == "project_id"@ && p.binds@[0].1 is CurrentProject,
            (Some(l), None) => p.clause@ == language_clause(false) && p.binds@.len() == 1
                && p.binds@[0].0@ == "lang"@ && is_text(p.binds@[0].1, l),
            (Some(l), Some(f)) => p.clause@ == language_clause(true) && p.binds@.len() == 2
                && p.binds@[0].0@ == "lang"@ && is_text(p.binds@[0].1, l) && p.binds@[1].0@
                == "fw"@ && is_text(p.binds@[1].1, f),
            (None, Some(f)) => p.clause@ == framework_clause() && p.binds@.len() == 1
                && p.binds@[0].0@ == "fw"@ && is_text(p.binds@[0].1, f),
        },
{
    if query.search_all_projects == Some(true) {
        return ProjectScope { clause: String::new(), binds: Vec::new() };
    }
    let (lang, fw) = if query.language.is_some() || query.framework.is_some() {
        (non_empty_text(query.language.as_ref()), non_empty_text(query.framework.as_ref()))
    } else {
        (non_empty_text(stored_language.as_ref()), non_empty_text(stored_framework.as_ref()))
    };
    match (lang, fw) {
        (None, None) => {
            let mut binds: Vec<(String, BindValue)> = Vec::new();
            binds.push(("project_id".to_string(), BindValue::CurrentProject));
            ProjectScope { clause: "project_id = $project_id".to_string(), binds }
        },
        (Some(l), fw_opt) => {
            let mut sql = "project_id IN (SELECT VALUE id FROM projects WHERE string::lowercase(language) = string::lowercase($lang)".to_string();
            let mut binds: Vec<(String, BindValue)> = Vec::new();
            binds.push(("lang".to_string(), BindValue::Text(l)));
            let has_fw = fw_opt.is_some();
            if let Some(f) = fw_opt {
                sql.append(" AND string::lowercase(framework) = string::lowercase($fw)");
                binds.push(("fw".to_string(), BindValue::Text(f)));
            }
            sql.append(")");
            assert(sql@ =~= language_clause(has_fw));
            ProjectScope { clause: sql, binds }
        },
        (None, Some(f)) => {
            let mut binds: Vec<(String, BindValue)> = Vec::new();
            binds.push(("fw".to_string(), BindValue::Text(f)));
            ProjectScope {
                clause: "project_id IN (SELECT VALUE id FROM projects WHERE string::lowercase(framework) = string::lowercase($fw))".to_string(),
                binds,
            }
        },
    }
}

/// The conditions matching one query parameter `param` (such as `$q0`)
/// against a file's fields: its path, type, purpose, summary and content
/// start with it (`prefix`) or contain it, case-insensitively; or its
/// features, tags or exported functions contain it lowercased.
pub open spec fn match_terms(param: Seq<char>, prefix: bool) -> Seq<char> {
    let op = if prefix {
        " LIKE "@
    } else {
        " CONTAINS "@
    };
    let tail = if prefix {
        " || '%'"@
    } else {
        Seq::empty()
    };
    let lp = "string::lowercase("@ + param + ")"@;
    "string::lowercase(path)"@ + op + lp + tail + " OR string::lowercase(type)"@ + op + lp + tail
        + " OR string::lowercase(purpose)"@ + op + lp + tail + " OR string::lowercase(summary)"@
        + op + lp + tail + " OR string::lowercase(content)"@ + op + lp + tail
        + " OR features CONTAINS "@ + lp + " OR tags CONTAINS "@ + lp
        + " OR exported_functions CONTAINS "@ + lp
}

fn match_terms_text(param: &str, prefix: bool) -> (s: String)
    ensures
        s@ == match_terms(param@, prefix),
{
    let op = if prefix {
        " LIKE "
    } else {
        " CONTAINS "
    };
    let tail = if prefix {
        " || '%'"
    } else {
        ""
    };
    let mut lp = "string::lowercase(".to_string();
    lp.append(param);
    lp.append(")");
    let mut s = "string::lowercase(path)".to_string();
    s.append(op);
    s.append(lp.as_str());
    s.append(tail);
    s.append(" OR string::lowercase(type)");
    s.append(op);
    s.append(lp.as_str());
    s.append(tail);
    s.append(" OR string::lowercase(purpose)");
    s.append(op);
    s.append(lp.as_str());
    s.append(tail);
    s.append(" OR string::lowercase(summary)");
    s.append(op);
    s.append(lp.as_str());
    s.append(tail);
    s.append(" OR string::lowercase(content)");
    s.append(op);
    s.append(lp.as_str());
    s.append(tail);
    s.append(" OR features CONTAINS ");
    s.append(lp.as_str());
    s.append(" OR tags CONTAINS ");
    s.append(lp.as_str());
    s.append(" OR exported_functions CONTAINS ");
    s.append(lp.as_str());
    proof {
        reveal_strlit("");
        assert(s@ =~= match_terms(param@, prefix));
    }
    s
}

/// The name of the parameter bound to the `i`-th query word: `qt<i>`.
pub open spec fn token_param(i: nat) -> Seq<char> {
    "qt"@ + decimal(i)
}

/// The conditions of each query word, in order (the `i`-th matches the
/// parameter `$qt<i>`).
pub open spec fn token_terms(n: nat, prefix: bool) -> Seq<Seq<char>> {
    Seq::new(n, |i: int| match_terms("$qt"@ + decimal(i as nat), prefix))
}

/// The word condition of a search: with no words, the whole query text
/// (`$q0`) matched as one, or no condition when there is no query; with
/// words, any word matching.
pub open spec fn token_sql(n_tokens: nat, prefix: bool) -> Seq<char> {
    if n_tokens == 0 {
        "($q0 IS NONE OR "@ + match_terms("$q0"@, prefix) + ")"@
    } else {
        join(token_terms(n_tokens, prefix), " OR "@)
    }
}

/// The statement that finds candidate files.
pub open spec fn search_sql(project_clause: Seq<char>, n_tokens: nat, prefix: bool, limit: nat) -> Seq<
    char,
> {
    "SELECT * FROM file_data "@ + (if project_clause.len() == 0 {
        "WHERE 1=1"@
    } else {
        "WHERE "@ + project_clause
    })
        + " AND ($path IS NONE OR string::lowercase(path) CONTAINS string::lowercase($path)) AND ($purpose IS NONE OR string::lowercase(purpose) CONTAINS string::lowercase($purpose)) AND ("@
        + token_sql(n_tokens, prefix) + ") LIMIT "@ + decimal(limit)
}

/// An optional text as a bound value: the text, or nothing.
pub open spec fn opt_bind(v: BindValue, t: Option<String>) -> bool {
    match t {
        Some(s) => is_text(v, s@),
        None => v is Absent,
    }
}

fn opt_bind_value(t: &Option<String>) -> (v: BindValue)
    ensures
        opt_bind(v, *t),
{
    match t {
        Some(s) => BindValue::Text(s.clone()),
        None => BindValue::Absent,
    }
}

/// The statement that finds candidate files and the values of its
/// parameters: the path and purpose filters, then the whole query text
/// (`q0`) when there are no words, or each word (`qt0`, `qt1`, ...),
/// then the project scope's own parameters.
pub fn build_search_query(
    project_clause: &str,
    project_binds: Vec<(String, BindValue)>,
    query: &SearchQuery,
    query_tokens: &Vec<String>,
    limit: usize,
    is_prefix: bool,
) -> (r: (String, Vec<(String, BindValue)>))
    ensures
        r.0@ == search_sql(project_clause@, query_tokens@.len(), is_prefix, limit as nat),
        r.1@.len() == 3 + (if query_tokens@.len() == 0 { 0 } else { query_tokens@.len() - 1 })
            + project_binds@.len(),
        r.1@[0].0@ == "path"@ && opt_bind(r.1@[0].1, query.path),
        r.1@[1].0@ == "purpose"@ && opt_bind(r.1@[1].1, query.purpose),
        query_tokens@.len() == 0 ==> r.1@[2].0@ == "q0"@ && opt_bind(r.1@[2].1, query.query),
        forall|i: int|
            0 <= i < query_tokens@.len() ==> (#[trigger] r.1@[2 + i]).0@ == token_param(i as nat)
                && is_text(r.1@[2 + i].1, query_tokens@[i]@),
        r.1@.subrange(r.1@.len() - project_binds@.len(), r.1@.len() as int) == project_binds@,
{
    let n = query_tokens.len();
    let mut sql = "SELECT * FROM file_data ".to_string();
    if project_clause.is_empty() {
        sql.append("WHERE 1=1");
    } else {
        sql.append("WHERE ");
        sql.append(project_clause);
    }
    sql.append(
        " AND ($path IS NONE OR string::lowercase(path) CONTAINS string::lowercase($path)) AND ($purpose IS NONE OR string::lowercase(purpose) CONTAINS string::lowercase($purpose)) AND (",
    );
    let ghost head = sql@;
    if n == 0 {
        sql.append("($q0 IS NONE OR ");
        let terms = match_terms_text("$q0", is_prefix);
        sql.append(terms.as_str());
        sql.append(")");
    } else {
        let mut clauses: Vec<String> = Vec::new();
        let mut i: usize = 0;
        while i < n
            invariant
                i <= n,
                n == query_tokens@.len(),
                clauses@.map_values(|c: String| c@) == token_terms(n as nat, is_prefix).take(i as int),
            decreases n - i,
        {
            let mut param = "$qt".to_string();
            let digits = crate::text::u64_to_decimal(i as u64);
            param.append(digits.as_str());
            assert(param@ =~= "$qt"@ + decimal(i as nat));
            let c = match_terms_text(param.as_str(), is_prefix);
            let ghost before = clauses@.map_values(|c: String| c@);
            let ghost cv = c@;
            clauses.push(c);
            assert(clauses@.map_values(|c: String| c@) =~= before.push(cv));
            assert(token_terms(n as nat, is_prefix).take(i + 1) =~= token_terms(
                n as nat,
                is_prefix,
            ).take(i as int).push(cv));
            i = i + 1;
        }
        assert(token_terms(n as nat, is_prefix).take(n as int) =~= token_terms(n as nat, is_prefix));
        let joined = crate::text::join_strings(&clauses, " OR ");
        sql.append(joined.as_str());
    }
    sql.append(") LIMIT ");
    let digits = crate::text::u64_to_decimal(limit as u64);
    sql.append(digits.as_str());
    assert(sql@ =~= search_sql(project_clause@, n as nat, is_prefix, limit as nat));
    let mut binds: Vec<(String, BindValue)> = Vec::new();
    binds.push(("path".to_string(), opt_bind_value(&query.path)));
    binds.push(("purpose".to_string(), opt_bind_value(&query.purpose)));
    if n == 0 {
        binds.push(("q0".to_string(), opt_bind_value(&query.query)));
    } else {
        let mut i: usize = 0;
        while i < n
            invariant
                i <= n,
                n == query_tokens@.len(),
                binds@.len() == 2 + i,
                binds@[0].0@ == "path"@ && opt_bind(binds@[0].1, query.path),
                binds@[1].0@ == "purpose"@ && opt_bind(binds@[1].1, query.purpose),
                forall|k: int|
                    0 <= k < i ==> (#[trigger] binds@[2 + k]).0@ == token_param(k as nat)
                        && is_text(binds@[2 + k].1, query_tokens@[k]@),
            decreases n - i,
        {
            let mut name = "qt".to_string();
            let digits = crate::text::u64_to_decimal(i as u64);
            name.append(digits.as_str());
            binds.push((name, BindValue::Text(query_tokens[i].clone())));
            i = i + 1;
        }
    }
    let ghost before = binds@;
    let mut rest = project_binds;
    binds.append(&mut rest);
    assert(binds@ =~= before + project_binds@);
    assert(binds@.subrange(before.len() as int, binds@.len() as int) =~= project_binds@);
    (sql, binds)
}

/// Position `i` goes before position `j` in a ranking by descending key:
/// its key is larger, or the keys tie and `i` came first (the ranking is
/// stable).
pub open spec fn ranks_before(keys: Seq<u128>, i: int, j: int) -> bool {
    keys[i] > keys[j] || (keys[i] == keys[j] && i <= j)
}

/// `order` lists every position of `keys` once, by descending key, ties in
/// their original order.
pub open spec fn is_ranking(keys: Seq<u128>, order: Seq<int>) -> bool {
    &&& order.len() == keys.len()
    &&& forall|p: int| 0 <= p < order.len() ==> 0 <= #[trigger] order[p] < keys.len()
    &&& forall|p: int, q: int| 0 <= p < q < order.len() ==> #[trigger] order[p] != #[trigger] order[q]
    &&& forall|p: int, q: int|
        0 <= p < q < order.len() ==> ranks_before(keys, #[trigger] order[p], #[trigger] order[q])
}

/// The positions of `keys` ranked by descending key, ties kept in their
/// original order (a stable sort).
pub fn rank_by_key(keys: &Vec<u128>) -> (order: Vec<usize>)
    ensures
        is_ranking(keys@, order@.map_values(|u: usize| u as int)),
{
    let ghost kv = keys@;
    let mut out: Vec<usize> = Vec::new();
    let mut i: usize = 0;
    while i < keys.len()
        invariant
            i <= keys@.len(),
            kv == keys@,
            out@.len() == i,
            forall|p: int| 0 <= p < out@.len() ==> (#[trigger] out@[p]) < i,
            forall|p: int, q: int|
                0 <= p < q < out@.len() ==> (#[trigger] out@[p]) != (#[trigger] out@[q]),
            forall|p: int, q: int|
                0 <= p < q < out@.len() ==> ranks_before(
                    kv,
                    #[trigger] out@[p] as int,
                    #[trigger] out@[q] as int,
                ),
        decreases keys@.len() - i,
    {
        let mut j: usize = 0;
        while j < out.len() && keys[out[j]] >= keys[i]
            invariant
                j <= out@.len(),
                i < keys@.len(),
                kv == keys@,
                forall|p: int| 0 <= p < out@.len() ==> (#[trigger] out@[p]) < i,
                forall|p: int| 0 <= p < j ==> kv[#[trigger] out@[p] as int] >= kv[i as int],
            decreases out@.len() - j,
        {
            j = j + 1;
        }
        let ghost old_out = out@;
        proof {
            if j < old_out.len() {
                assert forall|p: int| j <= p < old_out.len() implies kv[#[trigger] old_out[p] as int]
                    < kv[i as int] by {
                    if p > j {
                        assert(ranks_before(kv, old_out[j as int] as int, old_out[p] as int));
                    }
                }
            }
        }
        out.insert(j, i);
        proof {
            let nv = out@;
            assert(nv =~= old_out.insert(j as int, i));
            assert forall|p: int, q: int| 0 <= p < q < nv.len() implies ranks_before(
                kv,
                #[trigger] nv[p] as int,
                #[trigger] nv[q] as int,
            ) by {
                if q < j {
                    assert(nv[p] == old_out[p] && nv[q] == old_out[q]);
                } else if q == j {
                    assert(nv[p] == old_out[p]);
                } else if p == j {
                    assert(nv[q] == old_out[q - 1]);
                } else if p < j {
                    assert(nv[p] == old_out[p] && nv[q] == old_out[q - 1]);
                } else {
                    assert(nv[p] == old_out[p - 1] && nv[q] == old_out[q - 1]);
                }
            }
            assert forall|p: int, q: int| 0 <= p < q < nv.len() implies (#[trigger] nv[p]) != (
            #[trigger] nv[q]) by {
                if p < j && q < j {
                    assert(nv[p] == old_out[p] && nv[q] == old_out[q]);
                } else if p < j && q > j {
                    assert(nv[p] == old_out[p] && nv[q] == old_out[q - 1]);
                } else if p > j && q > j {
                    assert(nv[p] == old_out[p - 1] && nv[q] == old_out[q - 1]);
                } else if p == j {
                    assert(nv[q] == old_out[q - 1]);
                } else {
                    assert(nv[p] == old_out[p]);
                }
            }
            assert forall|p: int| 0 <= p < nv.len() implies (#[trigger] nv[p]) < i + 1 by {
                if p < j {
                    assert(nv[p] == old_out[p]);
                } else if p > j {
                    assert(nv[p] == old_out[p - 1]);
                }
            }
        }
        i = i + 1;
    }
    proof {
        let ov = out@.map_values(|u: usize| u as int);
        assert forall|p: int| 0 <= p < ov.len() implies 0 <= #[trigger] ov[p] < kv.len() by {
            assert(ov[p] == out@[p] as int);
        }
        assert forall|p: int, q: int| 0 <= p < q < ov.len() implies #[trigger] ov[p] != #[trigger] ov[q] by {
            assert(ov[p] == out@[p] as int && ov[q] == out@[q] as int);
        }
        assert forall|p: int, q: int| 0 <= p < q < ov.len() implies ranks_before(
            kv,
            #[trigger] ov[p],
            #[trigger] ov[q],
        ) by {
            assert(ov[p] == out@[p] as int && ov[q] == out@[q] as int);
        }
    }
    out
}

/// Whether `serde_json` reads the text as a JSON array of strings, and
/// which strings: a name for `serde_json::from_str::<Vec<String>>`.
pub uninterp spec fn json_string_list(raw: Seq<char>) -> Option<Seq<Seq<char>>>;

/// `serde_json::from_str::<Vec<String>>`, successful or not. Claimed of
/// it: its outcome is a function of the text, named by
/// `json_string_list`; JSON itself is not written out here.
#[verifier::external_body]
fn parse_string_list(raw: &str) -> (r: Option<Vec<String>>)
    ensures
        match r {
            Some(v) => json_string_list(raw@) == Some(v@.map_values(|s: String| s@)),
            None => json_string_list(raw@) is None,
        },
{
    serde_json::from_str::<Vec<String>>(raw).ok()
}

/// The strings of a JSON array text: none for an empty text or one that is
/// not an array of strings.
pub open spec fn json_list_or_empty(raw: Seq<char>) -> Seq<Seq<char>> {
    if raw.len() == 0 {
        Seq::empty()
    } else {
        match json_string_list(raw) {
            Some(v) => v,
            None => Seq::empty(),
        }
    }
}

/// Reads a JSON array of strings, falling back to none.
pub fn parse_json_str_array(raw: &str) -> (v: Vec<String>)
    ensures
        v@.map_values(|s: String| s@) == json_list_or_empty(raw@),
{
    if raw.is_empty() {
        let v: Vec<String> = Vec::new();
        assert(v@.map_values(|s: String| s@) =~= Seq::<Seq<char>>::empty());
        return v;
    }
    match parse_string_list(raw) {
        Some(v) => v,
        None => {
            let v: Vec<String> = Vec::new();
            assert(v@.map_values(|s: String| s@) =~= Seq::<Seq<char>>::empty());
            v
        },
    }
}

/// One file found by a search. Its features and exported functions are
/// kept as the JSON text they were stored as; its score counts points (see
/// `spec_score`).
#[derive(Debug, Clone, PartialEq, Eq)]
pub struct SearchHit {
    pub path: String,
    pub file_type: String,
    pub purpose: String,
    pub summary: String,
    pub tags: Vec<String>,
    pub file_data_id: String,
    pub project_id: String,
    pub project_root: String,
    pub score: u128,
    pub features_json: String,
    pub exported_functions_json: String,
}

/// The hit's features.
pub open spec fn hit_features(h: SearchHit) -> Seq<Seq<char>> {
    json_list_or_empty(h.features_json@)
}

/// The hit's exported functions.
pub open spec fn hit_exported(h: SearchHit) -> Seq<Seq<char>> {
    json_list_or_empty(h.exported_functions_json@)
}

/// The hit's tags.
pub open spec fn hit_tags(h: SearchHit) -> Seq<Seq<char>> {
    h.tags@.map_values(|s: String| s@)
}

impl SearchHit {
    /// The hit's features (none when they do not read as a list of strings).
    pub fn get_features(&self) -> (v: Vec<String>)
        ensures
            v@.map_values(|s: String| s@) == hit_features(*self),
    {
        parse_json_str_array(self.features_json.as_str())
    }

    /// The hit's exported functions (none when they do not read as a list
    /// of strings).
    pub fn get_exported_functions(&self) -> (v: Vec<String>)
        ensures
            v@.map_values(|s: String| s@) == hit_exported(*self),
    {
        parse_json_str_array(self.exported_functions_json.as_str())
    }
}

/// The lowercased text contains `needle`.
pub open spec fn lower_has(text: Seq<char>, needle: Seq<char>) -> bool {
    contains_seq(lowercase(text), needle)
}

/// Some item, lowercased, contains `needle`.
pub open spec fn any_lower_has(items: Seq<Seq<char>>, needle: Seq<char>) -> bool {
    exists|i: int| 0 <= i < items.len() && lower_has(#[trigger] items[i], needle)
}

fn lower_contains(text: &str, needle: &[char]) -> (b: bool)
    ensures
        b == lower_has(text@, needle@),
{
    let low = to_lowercase(text);
    let lv = chars_of(low.as_str());
    contains_chars(lv.as_slice(), needle)
}

fn any_lower_contains(items: &Vec<String>, needle: &[char]) -> (b: bool)
    ensures
        b == any_lower_has(items@.map_values(|s: String| s@), needle@),
{
    let ghost iv = items@.map_values(|s: String| s@);
    let mut i: usize = 0;
    while i < items.len()
        invariant
            i <= items@.len(),
            iv == items@.map_values(|s: String| s@),
            forall|k: int| 0 <= k < i ==> !lower_has(#[trigger] iv[k], needle@),
        decreases items@.len() - i,
    {
        if lower_contains(items[i].as_str(), needle) {
            assert(lower_has(iv[i as int], needle@));
            return true;
        }
        i = i + 1;
    }
    false
}

/// `n` points when `b` holds.
pub open spec fn pts(b: bool, n: int) -> int {
    if b {
        n
    } else {
        0
    }
}

/// Points for the whole (lowercased) query text `ql`: 5 each when the path,
/// purpose or a feature contains it, 4 each when the summary, a tag or an
/// exported function does; none for an empty query.
pub open spec fn full_query_score(h: SearchHit, ql: Seq<char>) -> int {
    if ql.len() == 0 {
        0
    } else {
        pts(lower_has(h.path@, ql), 5) + pts(lower_has(h.purpose@, ql), 5) + pts(
            lower_has(h.summary@, ql),
            4,
        ) + pts(any_lower_has(hit_features(h), ql), 5) + pts(any_lower_has(hit_tags(h), ql), 4)
            + pts(any_lower_has(hit_exported(h), ql), 4)
    }
}

/// Points for one query word `t`: 4 for a feature containing it, 3 each for
/// a tag, the purpose, the path or an exported function, 2 for the summary
/// and 1 for the file type; none for an empty word.
pub open spec fn token_score(h: SearchHit, t: Seq<char>) -> int {
    if t.len() == 0 {
        0
    } else {
        pts(any_lower_has(hit_features(h), t), 4) + pts(any_lower_has(hit_tags(h), t), 3) + pts(
            lower_has(h.purpose@, t),
            3,
        ) + pts(lower_has(h.summary@, t), 2) + pts(lower_has(h.path@, t), 3) + pts(
            any_lower_has(hit_exported(h), t),
            3,
        ) + pts(lower_has(h.file_type@, t), 1)
    }
}

/// The points of every query word.
pub open spec fn tokens_score(h: SearchHit, ts: Seq<Seq<char>>) -> int
    decreases ts.len(),
{
    if ts.len() == 0 {
        0
    } else {
        tokens_score(h, ts.drop_last()) + token_score(h, ts.last())
    }
}

/// The relevance of a hit to a query text `q` with words `ts`.
pub open spec fn spec_score(h: SearchHit, q: Seq<char>, ts: Seq<Seq<char>>) -> int {
    full_query_score(h, lowercase(q)) + tokens_score(h, ts)
}

proof fn lemma_tokens_score_bounds(h: SearchHit, ts: Seq<Seq<char>>)
    ensures
        0 <= tokens_score(h, ts) <= 19 * ts.len(),
    decreases ts.len(),
{
    if ts.len() > 0 {
        lemma_tokens_score_bounds(h, ts.drop_last());
    }
}

/// Scores a hit against a query text and its words.
pub fn score_result(r: &SearchHit, q: &str, tokens: &Vec<String>) -> (score: u128)
    ensures
        score as int == spec_score(*r, q@, tokens@.map_values(|s: String| s@)),
{
    let ql_string = to_lowercase(q);
    let ql = chars_of(ql_string.as_str());
    let features = r.get_features();
    let exported = r.get_exported_functions();
    let mut score: u128 = 0;
    if ql.len() > 0 {
        if lower_contains(r.path.as_str(), ql.as_slice()) {
            score = score + 5;
        }
        if lower_contains(r.purpose.as_str(), ql.as_slice()) {
            score = score + 5;
        }
        if lower_contains(r.summary.as_str(), ql.as_slice()) {
            score = score + 4;
        }
        if any_lower_contains(&features, ql.as_slice()) {
            score = score + 5;
        }
        if any_lower_contains(&r.tags, ql.as_slice()) {
            score = score + 4;
        }
        if any_lower_contains(&exported, ql.as_slice()) {
            score = score + 4;
        }
    }
    assert(score as int == full_query_score(*r, lowercase(q@)));
    let ghost base = score as int;
    let ghost tv = tokens@.map_values(|s: String| s@);
    let mut i: usize = 0;
    while i < tokens.len()
        invariant
            i <= tokens@.len(),
            tv == tokens@.map_values(|s: String| s@),
            0 <= base <= 27,
            score as int == base + tokens_score(*r, tv.take(i as int)),
            features@.map_values(|s: String| s@) == hit_features(*r),
            exported@.map_values(|s: String| s@) == hit_exported(*r),
        decreases tokens@.len() - i,
    {
        proof {
            lemma_tokens_score_bounds(*r, tv.take(i as int));
            assert(tv.take(i + 1).drop_last() =~= tv.take(i as int));
        }
        let t = chars_of(tokens[i].as_str());
        let mut add: u128 = 0;
        if t.len() > 0 {
            if any_lower_contains(&features, t.as_slice()) {
                add = add + 4;
            }
            if any_lower_contains(&r.tags, t.as_slice()) {
                add = add + 3;
            }
            if lower_contains(r.purpose.as_str(), t.as_slice()) {
                add = add + 3;
            }
            if lower_contains(r.summary.as_str(), t.as_slice()) {
                add = add + 2;
            }
            if lower_contains(r.path.as_str(), t.as_slice()) {
                add = add + 3;
            }
            if any_lower_contains(&exported, t.as_slice()) {
                add = add + 3;
            }
            if lower_contains(r.file_type.as_str(), t.as_slice()) {
                add = add + 1;
            }
        }
        assert(add as int == token_score(*r, tv[i as int]));
        assert(score as int <= 27 + 19 * i);
        score = score + add;
        i = i + 1;
    }
    assert(tv.take(tokens@.len() as int) =~= tv);
    score
}

/// A field of a stored record as a search reads it: absent, a string, or
/// another JSON value (with its JSON text).
#[derive(Debug, Clone, PartialEq, Eq)]
pub enum JsonField {
    Absent,
    Text(String),
    Other(String),
}

/// The `project_id` field of a stored record: a string, an object (with
/// its `id` when that is a string), or anything else.
#[derive(Debug, Clone, PartialEq, Eq)]
pub enum ProjectField {
    Absent,
    Text(String),
    Object(Option<String>),
    Other,
}

/// A `file_data` record returned by the search statement. `features` and
/// `exported_functions` hold the JSON text of the field when present;
/// `tags` holds the items of the field when it is an array.
#[derive(Debug, Clone, PartialEq, Eq)]
pub struct RawHit {
    pub path: JsonField,
    pub file_type: JsonField,
    pub type_field: JsonField,
    pub purpose: JsonField,
    pub summary: JsonField,
    pub features: Option<String>,
    pub tags: Option<Vec<JsonField>>,
    pub exported_functions: Option<String>,
    pub id: JsonField,
    pub project_id: ProjectField,
}

/// A string field's text, or the empty text.
pub open spec fn text_or_empty(f: JsonField) -> Seq<char> {
    match f {
        JsonField::Text(s) => s@,
        _ => Seq::empty(),
    }
}

/// The hit a record gives: none without a string `path`. The file type is
/// `file_type`, or `type` when there is no `file_type` field; missing
/// texts are empty; the id is the `id` string or the JSON text of another
/// id value; the project id is the `project_id` string or the string `id`
/// of a `project_id` object. The project root is filled in later and the
/// score starts at 0.
pub open spec fn spec_hit(raw: RawHit, h: SearchHit) -> bool {
    &&& raw.path matches JsonField::Text(p) && h.path@ == p@
    &&& h.file_type@ == match raw.file_type {
        JsonField::Absent => text_or_empty(raw.type_field),
        other => text_or_empty(other),
    }
    &&& h.purpose@ == text_or_empty(raw.purpose)
    &&& h.summary@ == text_or_empty(raw.summary)
    &&& h.features_json@ == match raw.features {
        Some(j) => j@,
        None => Seq::empty(),
    }
    &&& h.exported_functions_json@ == match raw.exported_functions {
        Some(j) => j@,
        None => Seq::empty(),
    }
    &&& hit_tags(h) == match raw.tags {
        Some(t) => string_items(t@),
        None => Seq::empty(),
    }
    &&& h.file_data_id@ == match raw.id {
        JsonField::Text(s) => s@,
        JsonField::Other(j) => j@,
        JsonField::Absent => Seq::empty(),
    }
    &&& h.project_id@ == match raw.project_id {
        ProjectField::Text(s) => s@,
        ProjectField::Object(Some(s)) => s@,
        _ => Seq::empty(),
    }
    &&& h.project_root@.len() == 0
    &&& h.score == 0
}

fn field_text(f: &JsonField) -> (s: String)
    ensures
        s@ == text_or_empty(*f),
{
    match f {
        JsonField::Text(t) => t.clone(),
        _ => String::new(),
    }
}

fn opt_string(o: &Option<String>) -> (s: String)
    ensures
        s@ == match *o {
            Some(j) => j@,
            None => Seq::<char>::empty(),
        },
{
    match o {
        Some(j) => j.clone(),
        None => String::new(),
    }
}

/// The texts of the string items of an array, in order; other items are
/// dropped.
pub open spec fn string_items(items: Seq<JsonField>) -> Seq<Seq<char>>
    decreases items.len(),
{
    if items.len() == 0 {
        Seq::empty()
    } else {
        let rest = string_items(items.drop_last());
        match items.last() {
            JsonField::Text(s) => rest.push(s@),
            _ => rest,
        }
    }
}

fn text_items(v: &Vec<JsonField>) -> (r: Vec<String>)
    ensures
        r@.map_values(|s: String| s@) == string_items(v@),
{
    let mut r: Vec<String> = Vec::new();
    let mut i: usize = 0;
    while i < v.len()
        invariant
            i <= v@.len(),
            r@.map_values(|s: String| s@) == string_items(v@.take(i as int)),
        decreases v@.len() - i,
    {
        assert(v@.take(i + 1).drop_last() =~= v@.take(i as int));
        match &v[i] {
            JsonField::Text(t) => {
                let c = t.clone();
                let ghost before = r@.map_values(|s: String| s@);
                let ghost cv = c@;
                r.push(c);
                assert(r@.map_values(|s: String| s@) =~= before.push(cv));
            },
            _ => {},
        }
        i = i + 1;
    }
    assert(v@.take(v@.len() as int) =~= v@);
    r
}

/// The hit a record gives, if any.
pub fn hit_from_raw(raw: &RawHit) -> (h: Option<SearchHit>)
    ensures
        raw.path is Text <==> h is Some,
        h matches Some(hit) ==> spec_hit(*raw, hit),
{
    let path = match &raw.path {
        JsonField::Text(p) => p.clone(),
        _ => {
            return None;
        },
    };
    let file_type = match &raw.file_type {
        JsonField::Absent => field_text(&raw.type_field),
        other => field_text(other),
    };
    let tags = match &raw.tags {
        Some(t) => text_items(t),
        None => {
            let v: Vec<String> = Vec::new();
            assert(v@.map_values(|s: String| s@) =~= Seq::<Seq<char>>::empty());
            v
        },
    };
    let file_data_id = match &raw.id {
        JsonField::Text(t) => t.clone(),
        JsonField::Other(j) => j.clone(),
        JsonField::Absent => String::new(),
    };
    let project_id = match &raw.project_id {
        ProjectField::Text(t) => t.clone(),
        ProjectField::Object(Some(t)) => t.clone(),
        _ => String::new(),
    };
    Some(
        SearchHit {
            path,
            file_type,
            purpose: field_text(&raw.purpose),
            summary: field_text(&raw.summary),
            tags,
            file_data_id,
            project_id,
            project_root: String::new(),
            score: 0,
            features_json: opt_string(&raw.features),
            exported_functions_json: opt_string(&raw.exported_functions),
        },
    )
}

/// The hits of the returned records, in order; records without a string
/// `path` are skipped.
pub fn process_search_results(records: &Vec<RawHit>) -> (hits: Vec<SearchHit>)
    ensures
        hits@.len() == records@.filter(|r: RawHit| r.path is Text).len(),
        forall|k: int|
            0 <= k < hits@.len() ==> spec_hit(
                records@.filter(|r: RawHit| r.path is Text)[k],
                #[trigger] hits@[k],
            ),
{
    let ghost pred = |r: RawHit| r.path is Text;
    let mut hits: Vec<SearchHit> = Vec::new();
    let mut i: usize = 0;
    while i < records.len()
        invariant
            i <= records@.len(),
            pred == (|r: RawHit| r.path is Text),
            hits@.len() == records@.take(i as int).filter(pred).len(),
            forall|k: int|
                0 <= k < hits@.len() ==> spec_hit(
                    records@.take(i as int).filter(pred)[k],
                    #[trigger] hits@[k],
                ),
        decreases records@.len() - i,
    {
        proof {
            assert(records@.take(i + 1) =~= records@.take(i as int).push(records@[i as int]));
            records@.take(i as int).lemma_filter_push(records@[i as int], pred);
        }
        match hit_from_raw(&records[i]) {
            Some(h) => {
                hits.push(h);
            },
            None => {},
        }
        i = i + 1;
    }
    assert(records@.take(records@.len() as int) =~= records@);
    hits
}

/// The views of a list of strings.
pub open spec fn views(v: Seq<String>) -> Seq<Seq<char>> {
    v.map_values(|s: String| s@)
}

/// `a` and `b` agree on everything but possibly the project root and the
/// score.
pub open spec fn same_file(a: SearchHit, b: SearchHit) -> bool {
    &&& a.path == b.path
    &&& a.file_type == b.file_type
    &&& a.purpose == b.purpose
    &&& a.summary == b.summary
    &&& a.tags == b.tags
    &&& a.file_data_id == b.file_data_id
    &&& a.project_id == b.project_id
    &&& a.features_json == b.features_json
    &&& a.exported_functions_json == b.exported_functions_json
}

/// The project ids of the hits, in order.
pub open spec fn project_ids(hits: Seq<SearchHit>) -> Seq<Seq<char>> {
    hits.map_values(|h: SearchHit| h.project_id@)
}

/// The project ids of the hits, other than the active project's, that
/// need their root path looked up: each once.
pub fn missing_project_ids(hits: &Vec<SearchHit>, current_pid: &str) -> (ids: Vec<String>)
    ensures
        forall|a: int, b: int|
            0 <= a < b < ids@.len() ==> (#[trigger] ids@[a])@ != (#[trigger] ids@[b])@,
        forall|k: int| 0 <= k < ids@.len() ==> (#[trigger] ids@[k])@ != current_pid@,
        forall|k: int| 0 <= k < ids@.len() ==> project_ids(hits@).contains((#[trigger] ids@[k])@),
        forall|j: int|
            0 <= j < hits@.len() && (#[trigger] hits@[j]).project_id@ != current_pid@ ==> views(
                ids@,
            ).contains(hits@[j].project_id@),
{
    let mut ids: Vec<String> = Vec::new();
    let mut i: usize = 0;
    while i < hits.len()
        invariant
            i <= hits@.len(),
            forall|a: int, b: int|
                0 <= a < b < ids@.len() ==> (#[trigger] ids@[a])@ != (#[trigger] ids@[b])@,
            forall|k: int| 0 <= k < ids@.len() ==> (#[trigger] ids@[k])@ != current_pid@,
            forall|k: int| 0 <= k < ids@.len() ==> project_ids(hits@).contains((#[trigger] ids@[k])@),
            forall|j: int|
                0 <= j < i && (#[trigger] hits@[j]).project_id@ != current_pid@ ==> views(
                    ids@,
                ).contains(hits@[j].project_id@),
        decreases hits@.len() - i,
    {
        let pid = &hits[i].project_id;
        let is_current = crate::text::str_eq(pid.as_str(), current_pid);
        let known = crate::text::contains_string(ids.as_slice(), pid.as_str());
        if !is_current && !known {
            let ghost before = ids@;
            let c = pid.clone();
            ids.push(c);
            proof {
                assert(ids@[ids@.len() - 1]@ == hits@[i as int].project_id@);
                assert forall|k: int| 0 <= k < ids@.len() implies project_ids(hits@).contains(
                    (#[trigger] ids@[k])@,
                ) by {
                    if k < before.len() {
                        assert(ids@[k] == before[k]);
                    } else {
                        assert(project_ids(hits@)[i as int] == ids@[k]@);
                    }
                }
                assert forall|j: int|
                    0 <= j < i + 1 && (#[trigger] hits@[j]).project_id@ != current_pid@ implies views(
                    ids@,
                ).contains(hits@[j].project_id@) by {
                    if j < i {
                        let w = choose|w: int| 0 <= w < views(before).len() && views(before)[w]
                            == hits@[j].project_id@;
                        assert(views(ids@)[w] == views(before)[w]);
                    } else {
                        assert(views(ids@)[ids@.len() - 1] == hits@[j].project_id@);
                    }
                }
            }
        } else {
            proof {
                if known {
                    let w = choose|w: int| 0 <= w < ids@.len() && (#[trigger] ids@[w])@
                        == pid@;
                    assert(views(ids@)[w] == pid@);
                }
            }
        }
        i = i + 1;
    }
    ids
}

/// The root path recorded for a project id: the last looked-up root for
/// it, else the active project's root when it is the active project, else
/// nothing.
pub open spec fn root_lookup(
    pid: Seq<char>,
    current_pid: Seq<char>,
    current_root: Seq<char>,
    fetched: Seq<(Seq<char>, Seq<char>)>,
) -> Seq<char>
    decreases fetched.len(),
{
    if fetched.len() == 0 {
        if pid == current_pid {
            current_root
        } else {
            Seq::empty()
        }
    } else if fetched.last().0 == pid {
        fetched.last().1
    } else {
        root_lookup(pid, current_pid, current_root, fetched.drop_last())
    }
}

/// The views of looked-up `(project id, root path)` pairs.
pub open spec fn pair_views(v: Seq<(String, String)>) -> Seq<(Seq<char>, Seq<char>)> {
    v.map_values(|p: (String, String)| (p.0@, p.1@))
}

fn lookup_root(pid: &str, current_pid: &str, current_root: &str, fetched: &Vec<(String, String)>) -> (r:
    String)
    ensures
        r@ == root_lookup(pid@, current_pid@, current_root@, pair_views(fetched@)),
{
    let ghost fv = pair_views(fetched@);
    let mut k: usize = fetched.len();
    assert(fv.take(k as int) =~= fv);
    while k > 0
        invariant
            k <= fetched@.len(),
            fv == pair_views(fetched@),
            root_lookup(pid@, current_pid@, current_root@, fv) == root_lookup(
                pid@,
                current_pid@,
                current_root@,
                fv.take(k as int),
            ),
        decreases k,
    {
        let ghost pre = fv.take(k as int);
        assert(pre.drop_last() =~= fv.take(k - 1));
        assert(pre.last() == fv[k - 1]);
        if crate::text::str_eq(fetched[k - 1].0.as_str(), pid) {
            return fetched[k - 1].1.clone();
        }
        k = k - 1;
    }
    assert(fv.take(0) =~= Seq::<(Seq<char>, Seq<char>)>::empty());
    if crate::text::str_eq(pid, current_pid) {
        current_root.to_string()
    } else {
        String::new()
    }
}

/// Fills in each hit's project root from the active project's root and the
/// looked-up roots of other projects.
pub fn attach_roots(
    hits: Vec<SearchHit>,
    current_pid: &str,
    current_root: &str,
    fetched: &Vec<(String, String)>,
) -> (out: Vec<SearchHit>)
    ensures
        out@.len() == hits@.len(),
        forall|k: int|
            0 <= k < out@.len() ==> same_file(#[trigger] out@[k], hits@[k]) && out@[k].score
                == hits@[k].score && out@[k].project_root@ == root_lookup(
                hits@[k].project_id@,
                current_pid@,
                current_root@,
                pair_views(fetched@),
            ),
{
    let ghost orig = hits@;
    let mut rest = hits;
    let mut out: Vec<SearchHit> = Vec::new();
    while rest.len() > 0
        invariant
            out@.len() + rest@.len() == orig.len(),
            rest@ == orig.skip(out@.len() as int),
            forall|k: int|
                0 <= k < out@.len() ==> same_file(#[trigger] out@[k], orig[k]) && out@[k].score
                    == orig[k].score && out@[k].project_root@ == root_lookup(
                    orig[k].project_id@,
                    current_pid@,
                    current_root@,
                    pair_views(fetched@),
                ),
        decreases rest@.len(),
    {
        let ghost n: int = out@.len() as int;
        let mut h = rest.remove(0);
        assert(h == orig[n]);
        assert(rest@ =~= orig.skip(n + 1));
        let root = lookup_root(h.project_id.as_str(), current_pid, current_root, fetched);
        h.project_root = root;
        out.push(h);
    }
    out
}

/// A hit has a feature containing one of the requested features,
/// case-insensitively.
pub open spec fn has_requested_feature(h: SearchHit, features: Seq<Seq<char>>) -> bool {
    exists|i: int| 0 <= i < features.len() && any_lower_has(hit_features(h), lowercase(#[trigger] features[i]))
}

/// A hit mentions one of the query words: in its path, file type, purpose
/// or summary (lowercased), or in a feature, tag or exported function.
pub open spec fn mentions_token(h: SearchHit, tokens: Seq<Seq<char>>) -> bool {
    exists|i: int|
        0 <= i < tokens.len() && {
            let t = #[trigger] tokens[i];
            lower_has(h.path@, t) || lower_has(h.file_type@, t) || lower_has(h.purpose@, t)
                || lower_has(h.summary@, t) || any_lower_has(hit_features(h), t) || any_lower_has(
                hit_tags(h),
                t,
            ) || any_lower_has(hit_exported(h), t)
        }
}

fn has_feature_exec(h: &SearchHit, features: &Vec<String>) -> (b: bool)
    ensures
        b == has_requested_feature(*h, views(features@)),
{
    let hf = h.get_features();
    let ghost fv = views(features@);
    let mut i: usize = 0;
    while i < features.len()
        invariant
            i <= features@.len(),
            fv == views(features@),
            views(hf@) == hit_features(*h),
            forall|k: int| 0 <= k < i ==> !any_lower_has(hit_features(*h), lowercase(#[trigger] fv[k])),
        decreases features@.len() - i,
    {
        let fl = to_lowercase(features[i].as_str());
        let flc = chars_of(fl.as_str());
        if any_lower_contains(&hf, flc.as_slice()) {
            assert(any_lower_has(hit_features(*h), lowercase(fv[i as int])));
            return true;
        }
        i = i + 1;
    }
    false
}

fn mentions_token_exec(h: &SearchHit, tokens: &Vec<String>) -> (b: bool)
    ensures
        b == mentions_token(*h, views(tokens@)),
{
    let hf = h.get_features();
    let he = h.get_exported_functions();
    let ghost tv = views(tokens@);
    let mut i: usize = 0;
    while i < tokens.len()
        invariant
            i <= tokens@.len(),
            tv == views(tokens@),
            views(hf@) == hit_features(*h),
            views(he@) == hit_exported(*h),
            forall|k: int|
                0 <= k < i ==> {
                    let t = #[trigger] tv[k];
                    !(lower_has(h.path@, t) || lower_has(h.file_type@, t) || lower_has(
                        h.purpose@,
                        t,
                    ) || lower_has(h.summary@, t) || any_lower_has(hit_features(*h), t)
                        || any_lower_has(hit_tags(*h), t) || any_lower_has(hit_exported(*h), t))
                },
        decreases tokens@.len() - i,
    {
        let t = chars_of(tokens[i].as_str());
        let m = lower_contains(h.path.as_str(), t.as_slice()) || lower_contains(
            h.file_type.as_str(),
            t.as_slice(),
        ) || lower_contains(h.purpose.as_str(), t.as_slice()) || lower_contains(
            h.summary.as_str(),
            t.as_slice(),
        ) || any_lower_contains(&hf, t.as_slice()) || any_lower_contains(&h.tags, t.as_slice())
            || any_lower_contains(&he, t.as_slice());
        if m {
            assert(tv[i as int] == t@);
            return true;
        }
        i = i + 1;
    }
    false
}

/// Keeps the hits that have a requested feature.
pub fn filter_by_features(hits: Vec<SearchHit>, features: &Vec<String>) -> (out: Vec<SearchHit>)
    ensures
        out@ == hits@.filter(|h: SearchHit| has_requested_feature(h, views(features@))),
{
    let ghost orig = hits@;
    let ghost pred = |h: SearchHit| has_requested_feature(h, views(features@));
    let mut rest = hits;
    let mut out: Vec<SearchHit> = Vec::new();
    let ghost mut taken: int = 0;
    while rest.len() > 0
        invariant
            0 <= taken <= orig.len(),
            rest@ == orig.skip(taken),
            pred == (|h: SearchHit| has_requested_feature(h, views(features@))),
            out@ == orig.take(taken).filter(pred),
        decreases rest@.len(),
    {
        let h = rest.remove(0);
        proof {
            assert(h == orig[taken]);
            assert(orig.take(taken + 1) =~= orig.take(taken).push(h));
            orig.take(taken).lemma_filter_push(h, pred);
            assert(rest@ =~= orig.skip(taken + 1));
            taken = taken + 1;
        }
        if has_feature_exec(&h, features) {
            out.push(h);
        }
    }
    assert(orig.take(taken) =~= orig);
    out
}

/// Keeps the hits that mention a query word.
pub fn filter_by_tokens(hits: Vec<SearchHit>, tokens: &Vec<String>) -> (out: Vec<SearchHit>)
    ensures
        out@ == hits@.filter(|h: SearchHit| mentions_token(h, views(tokens@))),
{
    let ghost orig = hits@;
    let ghost pred = |h: SearchHit| mentions_token(h, views(tokens@));
    let mut rest = hits;
    let mut out: Vec<SearchHit> = Vec::new();
    let ghost mut taken: int = 0;
    while rest.len() > 0
        invariant
            0 <= taken <= orig.len(),
            rest@ == orig.skip(taken),
            pred == (|h: SearchHit| mentions_token(h, views(tokens@))),
            out@ == orig.take(taken).filter(pred),
        decreases rest@.len(),
    {
        let h = rest.remove(0);
        proof {
            assert(h == orig[taken]);
            assert(orig.take(taken + 1) =~= orig.take(taken).push(h));
            orig.take(taken).lemma_filter_push(h, pred);
            assert(rest@ =~= orig.skip(taken + 1));
            taken = taken + 1;
        }
        if mentions_token_exec(&h, tokens) {
            out.push(h);
        }
    }
    assert(orig.take(taken) =~= orig);
    out
}

/// `b` is `a` with its score set to `score`.
pub open spec fn rescored(a: SearchHit, b: SearchHit, score: int) -> bool {
    same_file(a, b) && a.project_root == b.project_root && b.score as int == score
}

/// Scores every hit against the query text and its words.
pub fn apply_scores(hits: Vec<SearchHit>, q: &str, tokens: &Vec<String>) -> (out: Vec<SearchHit>)
    ensures
        out@.len() == hits@.len(),
        forall|k: int|
            0 <= k < out@.len() ==> rescored(
                hits@[k],
                #[trigger] out@[k],
                spec_score(hits@[k], q@, views(tokens@)),
            ),
{
    let ghost orig = hits@;
    let mut rest = hits;
    let mut out: Vec<SearchHit> = Vec::new();
    while rest.len() > 0
        invariant
            out@.len() + rest@.len() == orig.len(),
            rest@ == orig.skip(out@.len() as int),
            forall|k: int|
                0 <= k < out@.len() ==> rescored(
                    orig[k],
                    #[trigger] out@[k],
                    spec_score(orig[k], q@, views(tokens@)),
                ),
        decreases rest@.len(),
    {
        let ghost n: int = out@.len() as int;
        let mut h = rest.remove(0);
        assert(h == orig[n]);
        assert(rest@ =~= orig.skip(n + 1));
        let score = score_result(&h, q, tokens);
        h.score = score;
        out.push(h);
    }
    out
}

/// The scores of the hits.
pub open spec fn scores(hits: Seq<SearchHit>) -> Seq<u128> {
    hits.map_values(|h: SearchHit| h.score)
}

/// `out` is `hits` in the order `order`.
pub open spec fn arranged(hits: Seq<SearchHit>, order: Seq<int>, out: Seq<SearchHit>) -> bool {
    out.len() == order.len() && forall|k: int| 0 <= k < out.len() ==> #[trigger] out[k] == hits[order[k]]
}

/// Sorts hits by descending score; hits with equal scores keep their
/// order.
pub fn sort_by_score(hits: Vec<SearchHit>) -> (out: Vec<SearchHit>)
    ensures
        exists|order: Seq<int>| is_ranking(scores(hits@), order) && arranged(hits@, order, out@),
{
    let ghost orig = hits@;
    let mut keys: Vec<u128> = Vec::new();
    let mut i: usize = 0;
    while i < hits.len()
        invariant
            i <= hits@.len(),
            orig == hits@,
            keys@ == scores(orig).take(i as int),
        decreases hits@.len() - i,
    {
        keys.push(hits[i].score);
        assert(keys@ =~= scores(orig).take(i + 1));
        i = i + 1;
    }
    assert(keys@ =~= scores(orig));
    let order = rank_by_key(&keys);
    let ghost ov = order@.map_values(|u: usize| u as int);
    let mut slots: Vec<Option<SearchHit>> = Vec::new();
    let mut rest = hits;
    while rest.len() > 0
        invariant
            slots@.len() + rest@.len() == orig.len(),
            rest@ == orig.skip(slots@.len() as int),
            forall|k: int| 0 <= k < slots@.len() ==> #[trigger] slots@[k] == Some(orig[k]),
        decreases rest@.len(),
    {
        let ghost n: int = slots@.len() as int;
        let h = rest.remove(0);
        assert(h == orig[n]);
        assert(rest@ =~= orig.skip(n + 1));
        slots.push(Some(h));
    }
    let mut out: Vec<SearchHit> = Vec::new();
    let mut k: usize = 0;
    while k < order.len()
        invariant
            k <= order@.len(),
            ov == order@.map_values(|u: usize| u as int),
            is_ranking(scores(orig), ov),
            slots@.len() == orig.len(),
            out@.len() == k,
            forall|p: int| 0 <= p < k ==> #[trigger] out@[p] == orig[ov[p]],
            forall|j: int|
                0 <= j < slots@.len() ==> (#[trigger] slots@[j] == None::<SearchHit> || slots@[j]
                    == Some(orig[j])),
            forall|j: int|
                0 <= j < slots@.len() && (exists|p: int| k <= p < ov.len() && #[trigger] ov[p] == j)
                    ==> #[trigger] slots@[j] == Some(orig[j]),
        decreases order@.len() - k,
    {
        let idx = order[k];
        assert(ov[k as int] == idx as int);
        assert(slots@[idx as int] == Some(orig[idx as int]));
        let ghost before = slots@;
        let taken = slots.remove(idx);
        slots.insert(idx, None);
        assert(slots@ =~= before.update(idx as int, None));
        let h = taken.unwrap();
        out.push(h);
        proof {
            assert forall|j: int|
                0 <= j < slots@.len() && (exists|p: int| k + 1 <= p < ov.len() && #[trigger] ov[p] == j)
                    implies #[trigger] slots@[j] == Some(orig[j]) by {
                let p = choose|p: int| k + 1 <= p < ov.len() && #[trigger] ov[p] == j;
                assert(ov[p] != ov[k as int]);
                assert(before[j] == Some(orig[j]));
            }
        }
        k = k + 1;
    }
    assert(arranged(orig, ov, out@));
    out
}

/// The scores of the hits against a query text and its words.
pub open spec fn score_keys(hits: Seq<SearchHit>, q: Seq<char>, tokens: Seq<Seq<char>>) -> Seq<u128> {
    hits.map_values(|h: SearchHit| spec_score(h, q, tokens) as u128)
}

/// The hits a search keeps: those with a requested feature when features
/// are requested, then those mentioning a query word when there are words.
pub open spec fn filtered_hits(hits: Seq<SearchHit>, q: SearchQuery, tokens: Seq<Seq<char>>) -> Seq<
    SearchHit,
> {
    let a = match q.features {
        Some(fs) => hits.filter(|h: SearchHit| has_requested_feature(h, views(fs@))),
        None => hits,
    };
    if tokens.len() > 0 {
        a.filter(|h: SearchHit| mentions_token(h, tokens))
    } else {
        a
    }
}

/// The most hits a search returns: 50 unless given.
pub open spec fn result_limit(q: SearchQuery) -> int {
    match q.limit {
        Some(l) => l as int,
        None => 50,
    }
}

/// A ranking is a rearrangement that drops nothing: every position of the
/// keys has a place in the order. So a ranked search result holds every
/// hit the filters kept, when the limit leaves room for all of them.
pub proof fn lemma_ranking_covers(keys: Seq<u128>, order: Seq<int>, idx: int)
    requires
        is_ranking(keys, order),
        0 <= idx < keys.len(),
    ensures
        exists|p: int| 0 <= p < order.len() && order[p] == idx,
{
    if !exists|p: int| 0 <= p < order.len() && order[p] == idx {
        let n = keys.len() as int;
        vstd::set_lib::lemma_int_range(0, n);
        let r = vstd::set_lib::set_int_range(0, n).remove(idx);
        assert(order.no_duplicates()) by {
            assert forall|a: int, b: int| 0 <= a < order.len() && 0 <= b < order.len() && a != b
                implies order[a] != order[b] by {
                if a < b {
                    assert(order[a] != order[b]);
                } else {
                    assert(order[b] != order[a]);
                }
            }
        }
        order.unique_seq_to_set();
        assert(order.to_set().subset_of(r)) by {
            assert forall|x: int| order.to_set().contains(x) implies r.contains(x) by {
                let p = choose|p: int| 0 <= p < order.len() && order[p] == x;
                assert(0 <= order[p] < n);
            }
        }
        vstd::set_lib::lemma_len_subset(order.to_set(), r);
        assert(false);
    }
}

/// The final results of a search from its candidate hits: the hits kept
/// by the feature and word filters; when there is a query text, scored
/// against it and ranked by descending score (ties in candidate order);
/// at most the limit of them.
pub fn rank_hits(hits: Vec<SearchHit>, query: &SearchQuery, tokens: &Vec<String>) -> (out: Vec<
    SearchHit,
>)
    ensures
        ({
            let kept = filtered_hits(hits@, *query, views(tokens@));
            let n = if kept.len() < result_limit(*query) {
                kept.len() as int
            } else {
                result_limit(*query)
            };
            &&& out@.len() == n
            &&& query.query is None ==> out@ == kept.take(n)
            &&& query.query matches Some(text) ==> exists|order: Seq<int>|
                #[trigger] is_ranking(score_keys(kept, text@, views(tokens@)), order) && forall|k: int|
                    0 <= k < n ==> rescored(
                        kept[order[k]],
                        #[trigger] out@[k],
                        spec_score(kept[order[k]], text@, views(tokens@)),
                    )
        }),
{
    let ghost orig = hits@;
    let mut results = hits;
    match &query.features {
        Some(fs) => {
            results = filter_by_features(results, fs);
        },
        None => {},
    }
    if tokens.len() > 0 {
        results = filter_by_tokens(results, tokens);
    }
    let ghost kept = results@;
    assert(kept == filtered_hits(orig, *query, views(tokens@)));
    let limit: usize = match query.limit {
        Some(l) => l,
        None => 50,
    };
    match &query.query {
        Some(q) => {
            let scored = apply_scores(results, q.as_str(), tokens);
            let ghost sv = scored@;
            let mut ranked = sort_by_score(scored);
            proof {
                let keys = score_keys(kept, q@, views(tokens@));
                assert(scores(sv) =~= keys) by {
                    assert forall|j: int| 0 <= j < sv.len() implies #[trigger] scores(sv)[j] == keys[j] by {
                        assert(rescored(kept[j], sv[j], spec_score(kept[j], q@, views(tokens@))));
                    }
                }
            }
            let ghost full = ranked@;
            ranked.truncate(limit);
            proof {
                let keys = score_keys(kept, q@, views(tokens@));
                let order = choose|order: Seq<int>| is_ranking(scores(sv), order) && arranged(sv, order, full);
                assert(is_ranking(keys, order));
                assert forall|k: int| 0 <= k < ranked@.len() implies rescored(
                    kept[order[k]],
                    #[trigger] ranked@[k],
                    spec_score(kept[order[k]], q@, views(tokens@)),
                ) by {
                    assert(ranked@[k] == full[k]);
                    assert(full[k] == sv[order[k]]);
                    assert(0 <= order[k] < sv.len());
                }
            }
            ranked
        },
        None => {
            let mut r = results;
            r.truncate(limit);
            r
        },
    }
}

/// What a search needs before it queries: the query text taken apart, the
/// active project's record id (none for a search over every project) and
/// the result limit.
pub struct SearchPlan {
    pub terms: QueryTerms,
    pub project: Option<surrealdb_types::RecordId>,
    pub limit: usize,
}

/// The query text of a request, empty when absent.
pub open spec fn query_text(q: SearchQuery) -> Seq<char> {
    match q.query {
        Some(t) => t@,
        None => Seq::empty(),
    }
}

/// The query text is acceptable (see `validate_query`).
pub open spec fn valid_query_text(t: Seq<char>, bytes: nat) -> bool {
    bytes <= 1000 && forall|i: int| 0 <= i < t.len() ==> !is_invalid_control(#[trigger] t[i])
}

/// Prepares a search for the active project `project_id` (empty when no
/// project is open): refuses an invalid query text; then, unless the
/// search covers every project, refuses a search with no active project
/// or with an active project id that is not a record id.
pub fn prepare_search(query: &SearchQuery, project_id: &str) -> (r: Result<SearchPlan, EngineError>)
    ensures
        match query.query {
            Some(t) => !valid_query_text(t@, vstd::utf8::encode_utf8(t@).len()) ==> r is Err,
            None => true,
        },
        query.query matches Some(t) && vstd::utf8::encode_utf8(t@).len() > 1000 ==> (r matches Err(
            EngineError::Internal(m),
        ) && m@ == "query exceeds maximum length of 1000 characters"@),
        query.query matches Some(t) && vstd::utf8::encode_utf8(t@).len() <= 1000 && (exists|i: int|
            0 <= i < t@.len() && is_invalid_control(#[trigger] t@[i])) ==> (r matches Err(
            EngineError::Internal(m),
        ) && m@ == "query contains invalid control characters"@),
        r matches Ok(plan) ==> (plan.project matches Some(rid) ==> crate::util::parsed_record_id(
            project_id@,
        ) == Some(rid)),
        r matches Ok(plan) ==> {
            &&& plan.terms.stripped@ == spec_strip_marker(query_text(*query)).0
            &&& plan.terms.is_prefix == spec_strip_marker(query_text(*query)).1
            &&& views(plan.terms.tokens@) == spec_query_tokens(
                spec_strip_marker(query_text(*query)).0,
            )
            &&& plan.limit as int == result_limit(*query)
            &&& searches_all(*query) <==> plan.project is None
        },
        (match query.query {
            Some(t) => valid_query_text(t@, vstd::utf8::encode_utf8(t@).len()),
            None => true,
        }) ==> (if searches_all(*query) {
            r is Ok
        } else if project_id@.len() == 0 {
            r matches Err(EngineError::Internal(m)) && m@
                == "no active project: open a project before searching"@
        } else {
            (r is Ok <==> crate::util::record_id_parses(project_id@)) && (r matches Err(e) ==> (
            e matches EngineError::Internal(m) && crate::text::starts_with(
                m@,
                "invalid project_id: "@,
            )))
        }),
{
    match &query.query {
        Some(q) => {
            match validate_query(q.as_str()) {
                Ok(()) => {},
                Err(e) => {
                    return Err(e);
                },
            }
        },
        None => {},
    }
    let raw: &str = match &query.query {
        Some(q) => q.as_str(),
        None => "",
    };
    proof {
        reveal_strlit("");
    }
    let terms = query_terms(raw);
    let limit: usize = match query.limit {
        Some(l) => l,
        None => 50,
    };
    if query.search_all_projects == Some(true) {
        return Ok(SearchPlan { terms, project: None, limit });
    }
    if project_id.is_empty() {
        return Err(
            EngineError::Internal("no active project: open a project before searching".to_string()),
        );
    }
    match crate::util::record_id_value(project_id) {
        Ok(rid) => Ok(SearchPlan { terms, project: Some(rid), limit }),
        Err(e) => {
            let ghost prefix = "invalid project_id: "@;
            let mut m = "invalid project_id: ".to_string();
            m.append(e.reason.as_str());
            assert(m@.subrange(0, prefix.len() as int) =~= prefix);
            Err(EngineError::Internal(m))
        },
    }
}

/// The word filter keeps a hit that mentions a query word in any one of its
/// fields, whatever its other fields hold: its lowercased path, file type,
/// purpose or summary containing the word, or one of its features, tags or
/// exported functions doing so, keeps it among the hits of a search that
/// asks for no features. Every hit kept by a search with words mentions one
/// of them.
pub proof fn lemma_word_filter_keeps_mentions(
    hits: Seq<SearchHit>,
    q: SearchQuery,
    tokens: Seq<Seq<char>>,
    j: int,
    i: int,
)
    requires
        q.features is None,
        0 <= j < hits.len(),
        0 <= i < tokens.len(),
    ensures
        lower_has(hits[j].summary@, tokens[i]) ==> filtered_hits(hits, q, tokens).contains(hits[j]),
        lower_has(hits[j].path@, tokens[i]) ==> filtered_hits(hits, q, tokens).contains(hits[j]),
        lower_has(hits[j].file_type@, tokens[i]) ==> filtered_hits(hits, q, tokens).contains(hits[j]),
        lower_has(hits[j].purpose@, tokens[i]) ==> filtered_hits(hits, q, tokens).contains(hits[j]),
        any_lower_has(hit_features(hits[j]), tokens[i]) ==> filtered_hits(hits, q, tokens).contains(
            hits[j],
        ),
        any_lower_has(hit_tags(hits[j]), tokens[i]) ==> filtered_hits(hits, q, tokens).contains(
            hits[j],
        ),
        any_lower_has(hit_exported(hits[j]), tokens[i]) ==> filtered_hits(hits, q, tokens).contains(
            hits[j],
        ),
        forall|k: int|
            0 <= k < filtered_hits(hits, q, tokens).len() ==> exists|w: int|
                0 <= w < tokens.len() && {
                    let h = #[trigger] filtered_hits(hits, q, tokens)[k];
                    let t = #[trigger] tokens[w];
                    lower_has(h.path@, t) || lower_has(h.file_type@, t) || lower_has(h.purpose@, t)
                        || lower_has(h.summary@, t) || any_lower_has(hit_features(h), t)
                        || any_lower_has(hit_tags(h), t) || any_lower_has(hit_exported(h), t)
                },
{
    let h = hits[j];
    let t = tokens[i];
    let pred = |x: SearchHit| mentions_token(x, tokens);
    if lower_has(h.path@, t) || lower_has(h.file_type@, t) || lower_has(h.purpose@, t) || lower_has(
        h.summary@,
        t,
    ) || any_lower_has(hit_features(h), t) || any_lower_has(hit_tags(h), t) || any_lower_has(
        hit_exported(h),
        t,
    ) {
        assert(mentions_token(h, tokens));
        hits.lemma_filter_contains(pred, j);
    }
    let kept = filtered_hits(hits, q, tokens);
    assert forall|k: int| 0 <= k < kept.len() implies exists|w: int|
        0 <= w < tokens.len() && {
            let h = #[trigger] kept[k];
            let t = #[trigger] tokens[w];
            lower_has(h.path@, t) || lower_has(h.file_type@, t) || lower_has(h.purpose@, t)
                || lower_has(h.summary@, t) || any_lower_has(hit_features(h), t) || any_lower_has(
                hit_tags(h),
                t,
            ) || any_lower_has(hit_exported(h), t)
        } by {
        hits.lemma_filter_pred(pred, k);
        assert(mentions_token(kept[k], tokens));
    }
}

/// Requested features are compared case-insensitively: two requests whose
/// items have the same lowercase forms accept the same hits.
pub proof fn lemma_feature_request_case_insensitive(
    h: SearchHit,
    fs: Seq<Seq<char>>,
    gs: Seq<Seq<char>>,
)
    requires
        fs.len() == gs.len(),
        forall|i: int| 0 <= i < fs.len() ==> lowercase(#[trigger] fs[i]) == lowercase(gs[i]),
    ensures
        has_requested_feature(h, fs) == has_requested_feature(h, gs),
{
    if has_requested_feature(h, fs) {
        let i = choose|i: int|
            0 <= i < fs.len() && any_lower_has(hit_features(h), lowercase(#[trigger] fs[i]));
        assert(lowercase(gs[i]) == lowercase(fs[i]));
    }
    if has_requested_feature(h, gs) {
        let i = choose|i: int|
            0 <= i < gs.len() && any_lower_has(hit_features(h), lowercase(#[trigger] gs[i]));
        assert(lowercase(gs[i]) == lowercase(fs[i]));
    }
}

/// A search keeps the same hits for requested features that differ only in
/// letter case.
pub proof fn lemma_feature_filter_case_insensitive(
    hits: Seq<SearchHit>,
    q1: SearchQuery,
    q2: SearchQuery,
    tokens: Seq<Seq<char>>,
)
    requires
        q1.features is Some,
        q2.features is Some,
        q1.features->0@.len() == q2.features->0@.len(),
        forall|i: int|
            0 <= i < q1.features->0@.len() ==> lowercase((#[trigger] q1.features->0@[i])@)
                == lowercase(q2.features->0@[i]@),
    ensures
        filtered_hits(hits, q1, tokens) == filtered_hits(hits, q2, tokens),
{
    let fs = views(q1.features->0@);
    let gs = views(q2.features->0@);
    assert forall|i: int| 0 <= i < fs.len() implies lowercase(#[trigger] fs[i]) == lowercase(gs[i]) by {
        assert(fs[i] == q1.features->0@[i]@);
        assert(gs[i] == q2.features->0@[i]@);
    }
    let p1 = |h: SearchHit| has_requested_feature(h, fs);
    let p2 = |h: SearchHit| has_requested_feature(h, gs);
    assert forall|h: SearchHit| #[trigger] p1(h) == p2(h) by {
        lemma_feature_request_case_insensitive(h, fs, gs);
    }
    assert(p1 =~= p2);
}

} // verus!
