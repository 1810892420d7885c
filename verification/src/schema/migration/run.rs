//! Migration runs: which migrations are pending, how they are named, and
//! which expected tables are missing.
use vstd::prelude::*;
use vstd::string::StringExecFns;

use crate::text::{
    all_ascii, ascii_upper, char_vec_views, chars_of, join, lemma_split_ascii, push_char, split,
    split_chars,
};

verus! {

/// A single registered migration with its version number and name.
#[derive(Debug, Clone, Copy)]
pub struct Migration {
    pub version: u64,
    pub name: &'static str,
}

/// Report of which migrations were applied by a run.
#[derive(Debug, Default, Clone)]
pub struct MigrationReport {
    /// Human-readable display names of the applied migrations.
    pub applied: Vec<String>,
}

/// `char::to_uppercase`: the Unicode uppercase mapping of one character,
/// which may be several characters long.
pub uninterp spec fn uppercase_char(c: char) -> Seq<char>;

/// `char::to_uppercase`, collected into a string. The result is the Unicode
/// uppercase mapping of `c`, a function of `c` alone; the mapping is named by
/// `uppercase_char`, not written out. Of an ASCII character it is claimed
/// that the mapping is the single character `a`-`z` turned to `A`-`Z`, any
/// other ASCII character kept (the Unicode uppercase mapping of ASCII; a
/// character without an uppercase mapping is yielded as it is).
#[verifier::external_body]
fn to_uppercase_char(c: char) -> (s: String)
    ensures
        s@ == uppercase_char(c),
        (c as u32) < 128 ==> s@ == seq![ascii_upper(c)],
{
    c.to_uppercase().collect()
}

/// A word with its first character uppercased.
pub open spec fn capitalize(w: Seq<char>) -> Seq<char> {
    if w.len() == 0 {
        Seq::empty()
    } else {
        uppercase_char(w[0]) + w.drop_first()
    }
}

/// A word with its first character uppercased, for ASCII text.
pub open spec fn ascii_capitalize(w: Seq<char>) -> Seq<char> {
    if w.len() == 0 {
        Seq::empty()
    } else {
        seq![ascii_upper(w[0])] + w.drop_first()
    }
}

/// The display name of an ASCII migration name, e.g. `create_users_table`
/// gives `Create Users Table`.
pub open spec fn ascii_migration_name(name: Seq<char>) -> Seq<char> {
    join(
        split(replace_char(name, '_', ' '), ' ').map_values(|w: Seq<char>| ascii_capitalize(w)),
        " "@,
    )
}

/// `s` with every `from` replaced by `to`.
pub open spec fn replace_char(s: Seq<char>, from: char, to: char) -> Seq<char> {
    s.map_values(|c: char| if c == from { to } else { c })
}

/// Display name of a migration: underscores become spaces and each
/// space-separated word is capitalized.
pub open spec fn spec_format_migration_name(name: Seq<char>) -> Seq<char> {
    join(split(replace_char(name, '_', ' '), ' ').map_values(|w: Seq<char>| capitalize(w)), " "@)
}

/// Display name of a migration (`create_users_table` → `Create Users Table`).
pub fn format_migration_name(name: &str) -> (s: String)
    ensures
        s@ == spec_format_migration_name(name@),
        all_ascii(name@) ==> s@ == ascii_migration_name(name@),
{
    let chars = chars_of(name);
    let mut replaced: Vec<char> = Vec::new();
    let mut i: usize = 0;
    while i < chars.len()
        invariant
            i <= chars@.len(),
            replaced@ == replace_char(chars@.take(i as int), '_', ' '),
        decreases chars@.len() - i,
    {
        let c = chars[i];
        replaced.push(if c == '_' { ' ' } else { c });
        assert(replaced@ =~= replace_char(chars@.take(i + 1), '_', ' '));
        i = i + 1;
    }
    assert(chars@.take(chars@.len() as int) =~= chars@);
    let words = split_chars(&replaced, ' ');
    let ghost wv = char_vec_views(words@);
    let ghost caps = wv.map_values(|w: Seq<char>| capitalize(w));
    let ghost ascii_caps = wv.map_values(|w: Seq<char>| ascii_capitalize(w));
    proof {
        if all_ascii(name@) {
            assert(all_ascii(replaced@)) by {
                assert forall|i: int| 0 <= i < replaced@.len() implies (#[trigger] replaced@[i] as u32)
                    < 128 by {
                    assert(chars@[i] == name@[i]);
                }
            }
            lemma_split_ascii(replaced@, ' ');
        }
    }
    let mut out = String::new();
    let mut k: usize = 0;
    while k < words.len()
        invariant
            k <= words@.len(),
            wv == char_vec_views(words@),
            caps == wv.map_values(|w: Seq<char>| capitalize(w)),
            ascii_caps == wv.map_values(|w: Seq<char>| ascii_capitalize(w)),
            out@ == join(caps.take(k as int), " "@),
            wv == split(replace_char(name@, '_', ' '), ' '),
            all_ascii(name@) ==> forall|m: int| 0 <= m < wv.len() ==> all_ascii(#[trigger] wv[m]),
            all_ascii(name@) ==> forall|m: int| 0 <= m < k ==> capitalize(#[trigger] wv[m])
                == ascii_capitalize(wv[m]),
        decreases words@.len() - k,
    {
        assert(caps.take(k + 1).drop_last() =~= caps.take(k as int));
        if k > 0 {
            out.append(" ");
        }
        let w = &words[k];
        assert(wv[k as int] == w@);
        if w.len() > 0 {
            let up = to_uppercase_char(w[0]);
            proof {
                if all_ascii(name@) {
                    assert(all_ascii(wv[k as int]));
                    assert((w@[0] as u32) < 128);
                    assert(capitalize(wv[k as int]) == ascii_capitalize(wv[k as int]));
                }
            }
            out.append(up.as_str());
            let mut j: usize = 1;
            let ghost mid = out@;
            while j < w.len()
                invariant
                    1 <= j <= w@.len(),
                    out@ == mid + w@.subrange(1, j as int),
                decreases w@.len() - j,
            {
                push_char(&mut out, w[j]);
                assert(w@.subrange(1, j as int).push(w@[j as int]) =~= w@.subrange(1, j + 1));
                j = j + 1;
            }
            assert(w@.subrange(1, w@.len() as int) =~= w@.drop_first());
        }
        proof {
            let c = capitalize(w@);
            assert(caps.take(k + 1).last() == c);
            if k > 0 {
                assert(out@ =~= join(caps.take(k as int), " "@) + " "@ + c);
            } else {
                assert(caps.take(1) =~= seq![c]);
                assert(out@ =~= c);
            }
        }
        k = k + 1;
    }
    assert(caps.take(words@.len() as int) =~= caps);
    proof {
        if all_ascii(name@) {
            assert(caps =~= ascii_caps);
        }
    }
    out
}

/// The migrations of `all` whose version is not among `applied`, in order.
pub open spec fn spec_pending(all: Seq<(u64, Seq<char>)>, applied: Seq<i64>) -> Seq<(u64, Seq<char>)> {
    all.filter(|m: (u64, Seq<char>)| !applied.contains(m.0 as i64))
}

/// Migrating is idempotent: once every pending migration has been applied
/// and its version recorded, no migration is pending.
pub proof fn lemma_migrated_none_pending(all: Seq<(u64, Seq<char>)>, applied: Seq<i64>)
    ensures
        spec_pending(
            all,
            applied + spec_pending(all, applied).map_values(|m: (u64, Seq<char>)| m.0 as i64),
        ).len() == 0,
{
    let pending = spec_pending(all, applied);
    let recorded = pending.map_values(|m: (u64, Seq<char>)| m.0 as i64);
    let now = applied + recorded;
    let was_pending = |m: (u64, Seq<char>)| !applied.contains(m.0 as i64);
    let still_pending = |m: (u64, Seq<char>)| !now.contains(m.0 as i64);
    assert forall|i: int| 0 <= i < all.len() implies !still_pending(#[trigger] all[i]) by {
        let v = all[i].0 as i64;
        if applied.contains(v) {
            let k = choose|k: int| 0 <= k < applied.len() && applied[k] == v;
            assert(now[k] == v);
        } else {
            all.lemma_filter_contains(was_pending, i);
            let j = choose|j: int| 0 <= j < pending.len() && pending[j] == all[i];
            assert(recorded[j] == v);
            assert(now[applied.len() + j] == v);
        }
    }
    all.lemma_all_neg_filter_empty(still_pending);
    assert(spec_pending(all, now) == all.filter(still_pending));
}

/// Versions strictly ascend along the list.
pub open spec fn ascending(ms: Seq<(u64, Seq<char>)>) -> bool {
    forall|a: int, b: int| 0 <= a < b < ms.len() ==> (#[trigger] ms[a]).0 < (#[trigger] ms[b]).0
}

proof fn lemma_pending_keeps_order(all: Seq<(u64, Seq<char>)>, applied: Seq<i64>)
    requires
        ascending(all),
    ensures
        ascending(spec_pending(all, applied)),
    decreases all.len(),
{
    reveal(Seq::filter);
    if all.len() > 0 {
        let init = all.drop_last();
        let pred = |m: (u64, Seq<char>)| !applied.contains(m.0 as i64);
        assert(ascending(init)) by {
            assert forall|a: int, b: int| 0 <= a < b < init.len() implies (#[trigger] init[a]).0 < (
            #[trigger] init[b]).0 by {
                assert(init[a] == all[a] && init[b] == all[b]);
            }
        }
        lemma_pending_keeps_order(init, applied);
        let p = spec_pending(init, applied);
        assert(p == init.filter(pred));
        if pred(all.last()) {
            assert forall|k: int| 0 <= k < p.len() implies (#[trigger] p[k]).0 < all.last().0 by {
                assert(p.contains(p[k]));
                init.lemma_filter_contains_rev(pred, p[k]);
                let j = choose|j: int| 0 <= j < init.len() && init[j] == p[k];
                assert(all[j] == init[j]);
                assert(all[all.len() - 1] == all.last());
            }
            assert(all.filter(pred) == p.push(all.last()));
            let q = p.push(all.last());
            assert forall|a: int, b: int| 0 <= a < b < q.len() implies (#[trigger] q[a]).0 < (
            #[trigger] q[b]).0 by {
                if b < p.len() {
                    assert(q[a] == p[a] && q[b] == p[b]);
                } else {
                    assert(q[a] == p[a]);
                }
            }
        } else {
            assert(all.filter(pred) == p);
        }
    }
}

/// Migrations are applied in ascending version order: the pending ones of
/// the registry, whatever has been applied before, come in strictly
/// ascending order of version.
pub proof fn lemma_pending_in_version_order(applied: Seq<i64>)
    ensures
        ascending(spec_pending(crate::schema::migration::registry::spec_all_migrations(), applied)),
{
    let all = crate::schema::migration::registry::spec_all_migrations();
    assert(ascending(all));
    lemma_pending_keeps_order(all, applied);
}

fn contains_i64(v: &Vec<i64>, x: i64) -> (b: bool)
    ensures
        b == v@.contains(x),
{
    let mut i: usize = 0;
    while i < v.len()
        invariant
            i <= v@.len(),
            forall|k: int| 0 <= k < i ==> v@[k] != x,
        decreases v@.len() - i,
    {
        if v[i] == x {
            return true;
        }
        i = i + 1;
    }
    false
}

/// The migrations still to apply: those whose version has not been
/// recorded as applied.
pub fn pending_migrations(all: &Vec<Migration>, applied: &Vec<i64>) -> (p: Vec<Migration>)
    ensures
        p@.map_values(|m: Migration| (m.version, m.name@)) == spec_pending(
            all@.map_values(|m: Migration| (m.version, m.name@)),
            applied@,
        ),
{
    let ghost av = all@.map_values(|m: Migration| (m.version, m.name@));
    let ghost pred = |m: (u64, Seq<char>)| !applied@.contains(m.0 as i64);
    let mut p: Vec<Migration> = Vec::new();
    let mut i: usize = 0;
    while i < all.len()
        invariant
            i <= all@.len(),
            av == all@.map_values(|m: Migration| (m.version, m.name@)),
            pred == |m: (u64, Seq<char>)| !applied@.contains(m.0 as i64),
            p@.map_values(|m: Migration| (m.version, m.name@)) == av.take(i as int).filter(pred),
        decreases all@.len() - i,
    {
        let m = all[i];
        let v = m.version as i64;
        let seen = contains_i64(applied, v);
        proof {
            reveal(Seq::filter);
            assert(av.take(i + 1).drop_last() =~= av.take(i as int));
            assert(av.take(i + 1).last() == (m.version, m.name@));
        }
        let ghost before = p@;
        if !seen {
            p.push(m);
            assert(p@.map_values(|m: Migration| (m.version, m.name@)) =~= before.map_values(
                |m: Migration| (m.version, m.name@),
            ).push((m.version, m.name@)));
        }
        i = i + 1;
    }
    assert(av.take(all@.len() as int) =~= av);
    p
}

/// The names in `expected` that do not occur in `present`, in order.
pub open spec fn spec_missing(expected: Seq<Seq<char>>, present: Seq<Seq<char>>) -> Seq<Seq<char>> {
    expected.filter(|t: Seq<char>| !present.contains(t))
}

/// The names in `candidates` that occur in `present`, in order.
pub open spec fn spec_present(candidates: Seq<Seq<char>>, present: Seq<Seq<char>>) -> Seq<Seq<char>> {
    candidates.filter(|t: Seq<char>| present.contains(t))
}

/// Whether `name` is one of `set`.
pub fn contains_name(set: &Vec<String>, name: &str) -> (b: bool)
    ensures
        b == crate::text::string_views(set@).contains(name@),
{
    let k = String::from_str(name);
    let ghost sv = crate::text::string_views(set@);
    let mut i: usize = 0;
    while i < set.len()
        invariant
            i <= set@.len(),
            sv == crate::text::string_views(set@),
            k@ == name@,
            forall|j: int| 0 <= j < i ==> sv[j] != name@,
        decreases set@.len() - i,
    {
        assert(sv[i as int] == set@[i as int]@);
        let eq = set[i].eq(&k);
        if eq {
            assert(sv[i as int] == name@);
            return true;
        }
        i = i + 1;
    }
    false
}

/// The `candidates` that are (`keep_present`) or are not (otherwise) among
/// `present`, in order.
pub fn select_names(candidates: &Vec<&'static str>, present: &Vec<String>, keep_present: bool) -> (r:
    Vec<&'static str>)
    ensures
        r@.map_values(|s: &str| s@) == candidates@.map_values(|s: &str| s@).filter(
            |t: Seq<char>| crate::text::string_views(present@).contains(t) == keep_present,
        ),
{
    let ghost cv = candidates@.map_values(|s: &str| s@);
    let ghost pv = crate::text::string_views(present@);
    let ghost pred = |t: Seq<char>| pv.contains(t) == keep_present;
    let mut r: Vec<&'static str> = Vec::new();
    let mut i: usize = 0;
    while i < candidates.len()
        invariant
            i <= candidates@.len(),
            cv == candidates@.map_values(|s: &str| s@),
            pv == crate::text::string_views(present@),
            pred == |t: Seq<char>| pv.contains(t) == keep_present,
            r@.map_values(|s: &str| s@) == cv.take(i as int).filter(pred),
        decreases candidates@.len() - i,
    {
        let c = candidates[i];
        proof {
            reveal(Seq::filter);
            assert(cv.take(i + 1).drop_last() =~= cv.take(i as int));
            assert(cv.take(i + 1).last() == c@);
        }
        let ghost before = r@;
        if contains_name(present, c) == keep_present {
            r.push(c);
            assert(r@.map_values(|s: &str| s@) =~= before.map_values(|s: &str| s@).push(c@));
        }
        i = i + 1;
    }
    assert(cv.take(candidates@.len() as int) =~= cv);
    r
}

/// The expected tables that `present` lacks.
pub fn missing_tables(present: &Vec<String>) -> (m: Vec<&'static str>)
    ensures
        m@.map_values(|s: &str| s@) == spec_missing(
            crate::schema::migration::registry::spec_expected_tables(),
            crate::text::string_views(present@),
        ),
{
    let expected = crate::schema::migration::registry::expected_tables();
    let r = select_names(&expected, present, false);
    proof {
        let pv = crate::text::string_views(present@);
        assert((|t: Seq<char>| pv.contains(t) == false) =~= (|t: Seq<char>| !pv.contains(t)));
    }
    r
}

/// The error message of a schema check that found `missing` tables absent.
pub open spec fn spec_schema_incomplete_message(missing: Seq<Seq<char>>) -> Seq<char> {
    "Schema is incomplete – missing tables: "@ + join(missing, ", "@)
}

/// The outcome of checking the schema against the tables `present`:
/// `None` when every expected table exists, otherwise the error message
/// naming the missing ones.
pub fn verify_schema_tables(present: &Vec<String>) -> (r: Option<String>)
    ensures
        match r {
            None => spec_missing(
                crate::schema::migration::registry::spec_expected_tables(),
                crate::text::string_views(present@),
            ).len() == 0,
            Some(msg) => {
                let m = spec_missing(
                    crate::schema::migration::registry::spec_expected_tables(),
                    crate::text::string_views(present@),
                );
                m.len() > 0 && msg@ == spec_schema_incomplete_message(m)
            },
        },
{
    let missing = missing_tables(present);
    if missing.len() == 0 {
        return None;
    }
    let mut msg = String::from_str("Schema is incomplete – missing tables: ");
    let list = crate::text::join_strs(&missing, ", ");
    msg.append(list.as_str());
    Some(msg)
}

/// The outcome of checking the schema from an `INFO FOR DB` reply: `None`
/// when every expected table exists; otherwise the error's message (a
/// reply without a `tables` object or that is not an object is reported as
/// such, and missing tables as by `verify_schema_tables`).
pub fn verify_schema_info(info: &crate::db::export::InfoReply) -> (r: Option<String>)
    ensures
        match *info {
            crate::db::export::InfoReply::Object(Some(keys)) => match r {
                None => spec_missing(
                    crate::schema::migration::registry::spec_expected_tables(),
                    crate::text::string_views(keys@),
                ).len() == 0,
                Some(msg) => {
                    let m = spec_missing(
                        crate::schema::migration::registry::spec_expected_tables(),
                        crate::text::string_views(keys@),
                    );
                    m.len() > 0 && msg@ == spec_schema_incomplete_message(m)
                },
            },
            crate::db::export::InfoReply::Object(None) => r matches Some(m) && m@
                == "INFO FOR DB returned no 'tables' key"@,
            crate::db::export::InfoReply::Other => r matches Some(m) && m@
                == "INFO FOR DB returned unexpected format"@,
        },
{
    match info {
        crate::db::export::InfoReply::Object(Some(keys)) => verify_schema_tables(keys),
        crate::db::export::InfoReply::Object(None) => Some(
            "INFO FOR DB returned no 'tables' key".to_string(),
        ),
        crate::db::export::InfoReply::Other => Some(
            "INFO FOR DB returned unexpected format".to_string(),
        ),
    }
}

} // verus!
