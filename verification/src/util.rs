//! Shared utility functions: record ids and lexical path handling.
use vstd::prelude::*;
use vstd::string::StringExecFns;

use surrealdb_types::RecordId;

use crate::text::{chars_of, i64_to_decimal, push_char, signed_decimal, split};

verus! {

#[verifier::external_type_specification]
#[verifier::external_body]
pub struct ExRecordId(surrealdb_types::RecordId);

#[verifier::external_type_specification]
#[verifier::external_body]
pub struct ExAnyhowError(anyhow::Error);

/// What `RecordId::parse_simple` gives for a text: the record id, or
/// `None` when it refuses the text. A name for the parser's outcome.
pub uninterp spec fn parsed_record_id(s: Seq<char>) -> Option<RecordId>;

/// Whether `RecordId::parse_simple` accepts the given text as a
/// `table:key` record id.
pub open spec fn record_id_parses(s: Seq<char>) -> bool {
    parsed_record_id(s) is Some
}

/// The position of the first `c` in `s` (`s.len()` when there is none).
pub open spec fn first_index_of(s: Seq<char>, c: char) -> int
    decreases s.len(),
{
    if s.len() == 0 {
        0
    } else if s[0] == c {
        0
    } else {
        1 + first_index_of(s.drop_first(), c)
    }
}

/// The table and key of a record id: a name for what its public `table`
/// and `key` fields hold, read into the library's plain form.
pub uninterp spec fn record_parts(rid: RecordId) -> RecordRef;

/// `a` and `b` name the same table and the same key.
pub open spec fn same_ref(a: RecordRef, b: RecordRef) -> bool {
    &&& a.table@ == b.table@
    &&& match (a.key, b.key) {
        (RecordKeyText::Text(x), RecordKeyText::Text(y)) => x@ == y@,
        (RecordKeyText::Number(x), RecordKeyText::Number(y)) => x == y,
        (RecordKeyText::Uuid(x), RecordKeyText::Uuid(y)) => x@ == y@,
        (RecordKeyText::Other(x), RecordKeyText::Other(y)) => x@ == y@,
        _ => false,
    }
}

/// `rid` is what a text with a `:` and no backtick parses to: the table is
/// the text before the first `:` and the key is the string after it.
pub open spec fn simple_parse(s: Seq<char>, rid: RecordId) -> bool {
    let i = first_index_of(s, ':');
    &&& record_parts(rid).table@ == s.subrange(0, i)
    &&& record_parts(rid).key matches RecordKeyText::Text(k) && k@ == s.subrange(i + 1, s.len() as int)
}

/// `surrealdb_types::RecordId::parse_simple`. Claimed of it: its outcome is
/// a function of the text, named by `parsed_record_id`; text without a `:`
/// is refused (both of its splitting paths need one); text with a `:` and
/// no backtick is accepted, split at the first `:` with both fragments kept
/// as they are (`split_once(':')`, and `decode_backtick_ident` keeps a
/// fragment that is not wrapped in backticks). What it does with
/// backtick-quoted fragments is left to the name.
#[verifier::external_body]
fn parse_simple(s: &str) -> (r: Result<RecordId, anyhow::Error>)
    ensures
        (r is Ok) == (parsed_record_id(s@) is Some),
        (r is Ok) ==> parsed_record_id(s@) == Some(r->Ok_0),
        !s@.contains(':') ==> (r is Err),
        s@.contains(':') && !s@.contains('`') ==> ((r is Ok) && simple_parse(s@, r->Ok_0)),
{
    RecordId::parse_simple(s)
}

/// The public fields of a record id, read into the library's plain form:
/// the table's text, and the key by its kind (a uuid in its hyphenated
/// form, an array, object or range key by its debug spelling). Claimed of
/// it: the result is a function of the id, named by `record_parts`.
#[verifier::external_body]
fn read_record_id(rid: &RecordId) -> (r: RecordRef)
    ensures
        same_ref(r, record_parts(*rid)),
{
    let key = match &rid.key {
        surrealdb_types::RecordIdKey::String(s) => RecordKeyText::Text(s.clone()),
        surrealdb_types::RecordIdKey::Number(n) => RecordKeyText::Number(*n),
        surrealdb_types::RecordIdKey::Uuid(u) => RecordKeyText::Uuid(u.to_string()),
        other => RecordKeyText::Other(format!("{other:?}")),
    };
    RecordRef { table: rid.table.to_string(), key }
}

/// The table and key of a record id, in the library's plain form.
pub fn record_ref(rid: &RecordId) -> (r: RecordRef)
    ensures
        same_ref(r, record_parts(*rid)),
{
    read_record_id(rid)
}

/// The text of an `anyhow::Error` (its `Display`). Nothing is claimed of
/// the text: it is the outside crate's own wording.
#[verifier::external_body]
fn error_text(e: &anyhow::Error) -> String {
    e.to_string()
}

/// Text that does not parse as a `table:key` record id, with the parser's
/// reason.
#[derive(Debug, Clone, PartialEq, Eq)]
pub struct InvalidRecordId {
    pub record: String,
    pub reason: String,
}

/// Parses a string like `"projects:abc123"` into a record id. Any
/// `table:key` text is accepted, not only project records.
pub fn record_id_value(record: &str) -> (r: Result<RecordId, InvalidRecordId>)
    ensures
        r is Ok <==> record_id_parses(record@),
        r matches Ok(rid) ==> parsed_record_id(record@) == Some(rid),
        !record@.contains(':') ==> r is Err,
        record@.contains(':') && !record@.contains('`') ==> (r matches Ok(rid) && simple_parse(
            record@,
            rid,
        )),
        r matches Err(e) ==> e.record@ == record@,
{
    match parse_simple(record) {
        Ok(rid) => Ok(rid),
        Err(e) => Err(InvalidRecordId { record: record.to_string(), reason: error_text(&e) }),
    }
}

/// Former name of [`record_id_value`], kept for callers that parse
/// project ids.
pub fn project_id_value(project_id: &str) -> (r: Result<RecordId, InvalidRecordId>)
    ensures
        r is Ok <==> record_id_parses(project_id@),
        r matches Ok(rid) ==> parsed_record_id(project_id@) == Some(rid),
        !project_id@.contains(':') ==> r is Err,
        project_id@.contains(':') && !project_id@.contains('`') ==> (r matches Ok(rid)
            && simple_parse(project_id@, rid)),
        r matches Err(e) ==> e.record@ == project_id@,
{
    record_id_value(project_id)
}

/// The key of a record id, as far as the text forms below need it: string,
/// number and uuid keys (the uuid in its hyphenated form), and any other key
/// kind (array, object, range) with its debug spelling.
#[derive(Debug, Clone, PartialEq, Eq)]
pub enum RecordKeyText {
    Text(String),
    Number(i64),
    Uuid(String),
    Other(String),
}

/// A record id: its table and its key.
#[derive(Debug, Clone, PartialEq, Eq)]
pub struct RecordRef {
    pub table: String,
    pub key: RecordKeyText,
}

/// The shape of a database value as the record-id helpers see it: a record
/// id, an object (with its `id` field when that field is a record id), or
/// anything else.
#[derive(Debug, Clone, PartialEq, Eq)]
pub enum RecordValue {
    Record(RecordRef),
    Object(Option<RecordRef>),
    Other,
}

/// The spelling of a key: string and uuid keys as they are, numbers in
/// decimal, other keys by their debug spelling.
pub open spec fn key_text(k: RecordKeyText) -> Seq<char> {
    match k {
        RecordKeyText::Text(s) => s@,
        RecordKeyText::Number(n) => signed_decimal(n as int),
        RecordKeyText::Uuid(s) => s@,
        RecordKeyText::Other(s) => s@,
    }
}

/// `table:key`.
pub open spec fn record_text(r: RecordRef) -> Seq<char> {
    r.table@ + seq![':'] + key_text(r.key)
}

fn record_ref_text(r: &RecordRef) -> (s: String)
    ensures
        s@ == record_text(*r),
{
    let mut s = String::new();
    s.append(r.table.as_str());
    push_char(&mut s, ':');
    match &r.key {
        RecordKeyText::Text(k) => s.append(k.as_str()),
        RecordKeyText::Number(n) => {
            let d = i64_to_decimal(*n);
            s.append(d.as_str());
        },
        RecordKeyText::Uuid(k) => s.append(k.as_str()),
        RecordKeyText::Other(k) => s.append(k.as_str()),
    }
    s
}

/// The canonical `table:key` text of a record-id value, for storage in
/// `config.json`. `None` for a value that is not a record id, and for a
/// record id whose key is neither a string, a number nor a uuid.
pub fn record_thing_to_string(value: &RecordValue) -> (r: Option<String>)
    ensures
        match *value {
            RecordValue::Record(rid) => match rid.key {
                RecordKeyText::Other(_) => r is None,
                _ => r matches Some(s) && s@ == record_text(rid),
            },
            _ => r is None,
        },
{
    match value {
        RecordValue::Record(rid) => match &rid.key {
            RecordKeyText::Other(_) => None,
            _ => Some(record_ref_text(rid)),
        },
        _ => None,
    }
}

/// The canonical `table:key` text of a record id given either bare or as
/// the `id` field of an object; other key kinds are spelled by their debug
/// form. `None` for any other value.
pub fn record_id_to_string(value: &RecordValue) -> (r: Option<String>)
    ensures
        match *value {
            RecordValue::Record(rid) => r matches Some(s) && s@ == record_text(rid),
            RecordValue::Object(Some(rid)) => r matches Some(s) && s@ == record_text(rid),
            _ => r is None,
        },
{
    match value {
        RecordValue::Record(rid) => Some(record_ref_text(rid)),
        RecordValue::Object(Some(rid)) => Some(record_ref_text(rid)),
        _ => None,
    }
}

/// `Path::join` on Unix, for a path given as text: an absolute `rel`
/// replaces `base`; otherwise `rel` is appended after a `/` separator,
/// which is omitted when `base` is empty or already ends with `/`.
pub open spec fn spec_join_path(base: Seq<char>, rel: Seq<char>) -> Seq<char> {
    if rel.len() > 0 && rel[0] == '/' {
        rel
    } else if base.len() == 0 || base.last() == '/' {
        base + rel
    } else {
        base + seq!['/'] + rel
    }
}

/// Join a path component onto a base path (Unix `Path::join` semantics).
pub fn join_path(base: &str, rel: &str) -> (p: String)
    ensures
        p@ == spec_join_path(base@, rel@),
{
    let b = chars_of(base);
    let r = chars_of(rel);
    if r.len() > 0 && r[0] == '/' {
        return String::from_str(rel);
    }
    let mut out = String::from_str(base);
    if !(b.len() == 0 || b[b.len() - 1] == '/') {
        push_char(&mut out, '/');
    }
    out.append(rel);
    out
}


/// Lexical resolution of path components, as `canonicalize_root_path` folds
/// them: empty and `.` components vanish, `..` drops the previous component
/// (if any), every other component is kept.
pub open spec fn fold_components(segs: Seq<Seq<char>>) -> Seq<Seq<char>>
    decreases segs.len(),
{
    if segs.len() == 0 {
        Seq::empty()
    } else {
        let st = fold_components(segs.drop_last());
        let c = segs.last();
        if c.len() == 0 || c == seq!['.'] {
            st
        } else if c == seq!['.', '.'] {
            if st.len() > 0 { st.drop_last() } else { st }
        } else {
            st.push(c)
        }
    }
}

/// The canonical spelling of a root path: the resolved components joined
/// by `/`, with a leading `/` when the input is absolute; a path that
/// resolves to nothing is `/`.
pub open spec fn spec_canonical_root(path: Seq<char>) -> Seq<char> {
    let st = fold_components(split(path, '/'));
    if st.len() == 0 {
        seq!['/']
    } else if path.len() > 0 && path[0] == '/' {
        seq!['/'] + crate::text::join(st, seq!['/'])
    } else {
        crate::text::join(st, seq!['/'])
    }
}

/// The views of a list of character vectors.
pub open spec fn vviews(v: Seq<Vec<char>>) -> Seq<Seq<char>> {
    v.map_values(|x: Vec<char>| x@)
}

/// One step of [`fold_components`].
pub open spec fn component_step(st: Seq<Seq<char>>, c: Seq<char>) -> Seq<Seq<char>> {
    if c.len() == 0 || c == seq!['.'] {
        st
    } else if c == seq!['.', '.'] {
        if st.len() > 0 { st.drop_last() } else { st }
    } else {
        st.push(c)
    }
}

proof fn lemma_fold_unfold(segs: Seq<Seq<char>>)
    requires
        segs.len() > 0,
    ensures
        fold_components(segs) == component_step(fold_components(segs.drop_last()), segs.last()),
{
}

fn step_exec(stack: &mut Vec<Vec<char>>, seg: Vec<char>)
    ensures
        vviews(final(stack)@) == component_step(vviews(old(stack)@), seg@),
{
    let n = seg.len();
    if n == 0 || (n == 1 && seg[0] == '.') {
        assert(n == 1 ==> seg@ =~= seq!['.']);
        return;
    }
    if n == 2 && seg[0] == '.' && seg[1] == '.' {
        assert(seg@ =~= seq!['.', '.']);
        if stack.len() > 0 {
            stack.pop();
            assert(vviews(stack@) =~= vviews(old(stack)@).drop_last());
        }
        return;
    }
    assert(seg@ != seq!['.']) by {
        if n == 1 { assert(seg@[0] != '.'); }
    }
    assert(seg@ != seq!['.', '.']) by {
        if n == 2 { assert(seg@[0] != '.' || seg@[1] != '.'); }
    }
    let ghost sv = seg@;
    stack.push(seg);
    assert(vviews(stack@) =~= vviews(old(stack)@).push(sv));
}

/// Splits a path on `/` and resolves its components.
fn resolve_components(path: &[char]) -> (st: Vec<Vec<char>>)
    ensures
        vviews(st@) == fold_components(split(path@, '/')),
{
    let mut stack: Vec<Vec<char>> = Vec::new();
    let mut cur: Vec<char> = Vec::new();
    let mut i: usize = 0;
    while i < path.len()
        invariant
            i <= path@.len(),
            vviews(stack@) == fold_components(split(path@.take(i as int), '/').drop_last()),
            cur@ == split(path@.take(i as int), '/').last(),
            split(path@.take(i as int), '/').len() > 0,
        decreases path@.len() - i,
    {
        let c = path[i];
        let ghost prev = path@.take(i as int);
        let ghost parts = split(prev, '/');
        assert(path@.take(i + 1).drop_last() =~= prev);
        assert(path@.take(i + 1).last() == c);
        if c == '/' {
            let seg = cur;
            cur = Vec::new();
            proof {
                lemma_fold_unfold(parts);
            }
            step_exec(&mut stack, seg);
            assert(split(path@.take(i + 1), '/') == parts.push(Seq::empty()));
            assert(split(path@.take(i + 1), '/').drop_last() =~= parts);
        } else {
            cur.push(c);
            assert(split(path@.take(i + 1), '/') == parts.update(parts.len() - 1, parts.last().push(c)));
            assert(split(path@.take(i + 1), '/').drop_last() =~= parts.drop_last());
        }
        i = i + 1;
    }
    assert(path@.take(path@.len() as int) =~= path@);
    proof {
        lemma_fold_unfold(split(path@, '/'));
    }
    step_exec(&mut stack, cur);
    stack
}

/// Joins character vectors with a one-character separator.
fn join_char_vecs(out: &mut String, parts: &Vec<Vec<char>>, sep: char)
    ensures
        final(out)@ == old(out)@ + crate::text::join(vviews(parts@), seq![sep]),
{
    let ghost vs = vviews(parts@);
    let mut i: usize = 0;
    while i < parts.len()
        invariant
            i <= parts@.len(),
            vs == vviews(parts@),
            out@ == old(out)@ + crate::text::join(vs.take(i as int), seq![sep]),
        decreases parts@.len() - i,
    {
        let ghost before = out@;
        assert(vs.take(i + 1).drop_last() =~= vs.take(i as int));
        if i > 0 {
            push_char(out, sep);
        }
        let part = &parts[i];
        let mut j: usize = 0;
        let ghost mid = out@;
        while j < part.len()
            invariant
                j <= part@.len(),
                out@ == mid + part@.take(j as int),
            decreases part@.len() - j,
        {
            push_char(out, part[j]);
            assert(part@.take(j as int).push(part@[j as int]) =~= part@.take(j + 1));
            j = j + 1;
        }
        assert(part@.take(part@.len() as int) =~= part@);
        assert(vs.take(i + 1).last() == part@);
        if i > 0 {
            assert(out@ =~= old(out)@ + (crate::text::join(vs.take(i as int), seq![sep]) + seq![sep]
                + part@));
        } else {
            assert(vs.take(1) =~= seq![part@]);
            assert(out@ =~= old(out)@ + part@);
        }
        i = i + 1;
    }
    assert(vs.take(parts@.len() as int) =~= vs);
}

/// Lexical root-path canonicalization: resolve `.`/`..` components, collapse
/// duplicate separators, strip a trailing `/` (except root), and return a
/// single canonical spelling of the path.
///
/// Pure and I/O-free — works even when the directory no longer exists.
pub fn canonicalize_root_path(path: &str) -> (s: String)
    ensures
        s@ == spec_canonical_root(path@),
{
    let chars = chars_of(path);
    let stack = resolve_components(&chars);
    let mut out = String::new();
    if stack.len() == 0 {
        push_char(&mut out, '/');
        assert(out@ =~= seq!['/']);
        return out;
    }
    if chars.len() > 0 && chars[0] == '/' {
        push_char(&mut out, '/');
    }
    let ghost start = out@;
    join_char_vecs(&mut out, &stack, '/');
    assert(start.len() == 0 ==> out@ =~= crate::text::join(vviews(stack@), seq!['/']));
    out
}


/// A path component that survives resolution unchanged: non-empty, not
/// `.` or `..`, and free of `/`.
pub open spec fn is_normal_component(c: Seq<char>) -> bool {
    c.len() > 0 && c != seq!['.'] && c != seq!['.', '.'] && !c.contains('/')
}

proof fn lemma_split_nonempty(s: Seq<char>, sep: char)
    ensures
        split(s, sep).len() >= 1,
    decreases s.len(),
{
    if s.len() > 0 {
        lemma_split_nonempty(s.drop_last(), sep);
    }
}

proof fn lemma_split_concat(a: Seq<char>, b: Seq<char>)
    ensures
        split(a + seq!['/'] + b, '/') == split(a, '/') + split(b, '/'),
    decreases b.len(),
{
    let s = a + seq!['/'] + b;
    lemma_split_nonempty(b, '/');
    if b.len() == 0 {
        assert(s.drop_last() =~= a);
        assert(split(s, '/') =~= split(a, '/') + split(b, '/'));
    } else {
        let b2 = b.drop_last();
        assert(s.drop_last() =~= a + seq!['/'] + b2);
        lemma_split_concat(a, b2);
        lemma_split_nonempty(b2, '/');
        lemma_split_nonempty(a, '/');
        let pa = split(a, '/');
        let pb = split(b2, '/');
        if b.last() == '/' {
            assert(split(s, '/') =~= split(a, '/') + split(b, '/'));
        } else {
            let parts = pa + pb;
            assert(parts.update(parts.len() - 1, parts.last().push(b.last())) =~= pa + pb.update(
                pb.len() - 1,
                pb.last().push(b.last()),
            ));
        }
    }
}

proof fn lemma_split_without_sep(s: Seq<char>)
    requires
        !s.contains('/'),
    ensures
        split(s, '/') == seq![s],
    decreases s.len(),
{
    if s.len() > 0 {
        let t = s.drop_last();
        assert(!t.contains('/')) by {
            if t.contains('/') {
                let k = choose|k: int| 0 <= k < t.len() && t[k] == '/';
                assert(s[k] == '/');
            }
        }
        lemma_split_without_sep(t);
        assert(s[s.len() - 1] != '/');
        assert(t.push(s.last()) =~= s);
        assert(seq![t].update(0, t.push(s.last())) =~= seq![s]);
    } else {
        assert(s =~= Seq::<char>::empty());
    }
}

proof fn lemma_split_parts_without_sep(s: Seq<char>)
    ensures
        forall|k: int| 0 <= k < split(s, '/').len() ==> !(#[trigger] split(s, '/')[k]).contains('/'),
    decreases s.len(),
{
    if s.len() > 0 {
        lemma_split_parts_without_sep(s.drop_last());
        lemma_split_nonempty(s.drop_last(), '/');
        let parts = split(s.drop_last(), '/');
        if s.last() != '/' {
            let np = parts.update(parts.len() - 1, parts.last().push(s.last()));
            assert forall|k: int| 0 <= k < np.len() implies !(#[trigger] np[k]).contains('/') by {
                if k == np.len() - 1 {
                    if np[k].contains('/') {
                        let j = choose|j: int| 0 <= j < np[k].len() && np[k][j] == '/';
                        if j < parts.last().len() {
                            assert(parts.last()[j] == '/');
                        }
                    }
                }
            }
        } else {
            let np = parts.push(Seq::<char>::empty());
            assert forall|k: int| 0 <= k < np.len() implies !(#[trigger] np[k]).contains('/') by {
                if k < parts.len() {
                    assert(np[k] == parts[k]);
                }
            }
        }
    } else {
        assert(split(s, '/')[0].len() == 0);
    }
}

proof fn lemma_fold_normal(segs: Seq<Seq<char>>)
    requires
        forall|k: int| 0 <= k < segs.len() ==> !(#[trigger] segs[k]).contains('/'),
    ensures
        forall|k: int|
            0 <= k < fold_components(segs).len() ==> is_normal_component(
                #[trigger] fold_components(segs)[k],
            ),
    decreases segs.len(),
{
    if segs.len() > 0 {
        let t = segs.drop_last();
        assert forall|k: int| 0 <= k < t.len() implies !(#[trigger] t[k]).contains('/') by {
            assert(t[k] == segs[k]);
        }
        lemma_fold_normal(t);
        let st = fold_components(t);
        assert(!segs[segs.len() - 1].contains('/'));
        if fold_components(segs) == st.push(segs.last()) {
            assert forall|k: int| 0 <= k < st.push(segs.last()).len() implies is_normal_component(
                #[trigger] st.push(segs.last())[k],
            ) by {
                if k < st.len() {
                    assert(st.push(segs.last())[k] == st[k]);
                }
            }
        } else if fold_components(segs) == st.drop_last() && st.len() > 0 {
            assert forall|k: int| 0 <= k < st.drop_last().len() implies is_normal_component(
                #[trigger] st.drop_last()[k],
            ) by {
                assert(st.drop_last()[k] == st[k]);
            }
        }
    }
}

proof fn lemma_fold_append_normal(p: Seq<Seq<char>>, q: Seq<Seq<char>>)
    requires
        forall|k: int| 0 <= k < q.len() ==> is_normal_component(#[trigger] q[k]),
    ensures
        fold_components(p + q) == fold_components(p) + q,
    decreases q.len(),
{
    if q.len() == 0 {
        assert(p + q =~= p);
        assert(fold_components(p) + q =~= fold_components(p));
    } else {
        let q2 = q.drop_last();
        assert((p + q).drop_last() =~= p + q2);
        assert((p + q).last() == q.last());
        assert forall|k: int| 0 <= k < q2.len() implies is_normal_component(#[trigger] q2[k]) by {
            assert(q2[k] == q[k]);
        }
        lemma_fold_append_normal(p, q2);
        assert(is_normal_component(q[q.len() - 1]));
        assert((fold_components(p) + q2).push(q.last()) =~= fold_components(p) + q);
    }
}

proof fn lemma_split_join(st: Seq<Seq<char>>)
    requires
        st.len() > 0,
        forall|k: int| 0 <= k < st.len() ==> is_normal_component(#[trigger] st[k]),
    ensures
        split(crate::text::join(st, seq!['/']), '/') == st,
    decreases st.len(),
{
    if st.len() == 1 {
        assert(is_normal_component(st[0]));
        lemma_split_without_sep(st[0]);
        assert(seq![st[0]] =~= st);
    } else {
        let t = st.drop_last();
        assert forall|k: int| 0 <= k < t.len() implies is_normal_component(#[trigger] t[k]) by {
            assert(t[k] == st[k]);
        }
        lemma_split_join(t);
        assert(is_normal_component(st[st.len() - 1]));
        lemma_split_without_sep(st.last());
        lemma_split_concat(crate::text::join(t, seq!['/']), st.last());
        assert(t + seq![st.last()] =~= st);
    }
}

proof fn lemma_join_first(st: Seq<Seq<char>>)
    requires
        st.len() > 0,
        st[0].len() > 0,
    ensures
        crate::text::join(st, seq!['/']).len() > 0,
        crate::text::join(st, seq!['/'])[0] == st[0][0],
    decreases st.len(),
{
    if st.len() > 1 {
        lemma_join_first(st.drop_last());
    }
}

/// Canonicalization is idempotent: a canonical root path is its own
/// canonical spelling, so every path has exactly one canonical form.
pub proof fn lemma_canonical_root_idempotent(path: Seq<char>)
    ensures
        spec_canonical_root(spec_canonical_root(path)) == spec_canonical_root(path),
{
    let st = fold_components(split(path, '/'));
    lemma_split_parts_without_sep(path);
    lemma_fold_normal(split(path, '/'));
    let c = spec_canonical_root(path);
    if st.len() == 0 {
        assert(c == seq!['/']);
        assert(seq!['/'] =~= Seq::<char>::empty() + seq!['/'] + Seq::<char>::empty());
        lemma_split_concat(Seq::<char>::empty(), Seq::<char>::empty());
        let e = Seq::<char>::empty();
        assert(split(c, '/') =~= seq![e, e]);
        assert(seq![e, e].drop_last() =~= seq![e]);
        assert(seq![e].drop_last() =~= Seq::<Seq<char>>::empty());
        assert(fold_components(seq![e]) == component_step(fold_components(seq![e].drop_last()), e));
        assert(fold_components(split(c, '/')).len() == 0);
    } else {
        let j = crate::text::join(st, seq!['/']);
        lemma_split_join(st);
        if path.len() > 0 && path[0] == '/' {
            let e = Seq::<char>::empty();
            assert(c == seq!['/'] + j);
            assert(c =~= e + seq!['/'] + j);
            lemma_split_concat(e, j);
            assert(split(c, '/') == seq![e] + st);
            lemma_fold_append_normal(seq![e], st);
            assert(seq![e].drop_last() =~= Seq::<Seq<char>>::empty());
            assert(fold_components(seq![e]) == component_step(fold_components(seq![e].drop_last()), e));
            assert(fold_components(seq![e]) =~= Seq::<Seq<char>>::empty());
            assert(Seq::<Seq<char>>::empty() + st =~= st);
        } else {
            assert(c == j);
            lemma_fold_append_normal(Seq::<Seq<char>>::empty(), st);
            assert(Seq::<Seq<char>>::empty() + st =~= st);
            assert(is_normal_component(st[0]));
            lemma_join_first(st);
            assert(j[0] != '/');
        }
    }
}

proof fn lemma_join_last(st: Seq<Seq<char>>)
    requires
        st.len() > 0,
        st.last().len() > 0,
    ensures
        crate::text::join(st, seq!['/']).len() > 0,
        crate::text::join(st, seq!['/']).last() == st.last().last(),
{
    let j = crate::text::join(st, seq!['/']);
    if st.len() > 1 {
        let head = crate::text::join(st.drop_last(), seq!['/']) + seq!['/'];
        assert(j == head + st.last());
        assert(j[j.len() - 1] == st.last()[st.last().len() - 1]);
    }
}

/// The shape of a canonical root path: it is never empty; it is `/` or
/// does not end in `/`; it keeps the leading `/` of an absolute path; and
/// apart from the empty field before a leading `/`, every component is a
/// plain name (not empty, not `.` or `..`), so it has no `//` either.
pub proof fn lemma_canonical_root_shape(path: Seq<char>)
    ensures
        spec_canonical_root(path).len() > 0,
        spec_canonical_root(path) == seq!['/'] || spec_canonical_root(path).last() != '/',
        path.len() > 0 && path[0] == '/' ==> spec_canonical_root(path)[0] == '/',
        spec_canonical_root(path) != seq!['/'] ==> forall|k: int|
            0 <= k < split(spec_canonical_root(path), '/').len() && !(k == 0
                && spec_canonical_root(path)[0] == '/') ==> is_normal_component(
                #[trigger] split(spec_canonical_root(path), '/')[k],
            ),
{
    let st = fold_components(split(path, '/'));
    lemma_split_parts_without_sep(path);
    lemma_fold_normal(split(path, '/'));
    let c = spec_canonical_root(path);
    if st.len() > 0 {
        let j = crate::text::join(st, seq!['/']);
        lemma_split_join(st);
        assert(is_normal_component(st[0]));
        assert(is_normal_component(st[st.len() - 1]));
        lemma_join_first(st);
        lemma_join_last(st);
        assert(st.last() == st[st.len() - 1]);
        assert(!st.last().contains('/'));
        assert(st.last().last() != '/') by {
            assert(st.last()[st.last().len() - 1] == st.last().last());
        }
        if path.len() > 0 && path[0] == '/' {
            let e = Seq::<char>::empty();
            assert(c == seq!['/'] + j);
            assert(c =~= e + seq!['/'] + j);
            lemma_split_concat(e, j);
            assert(split(e, '/') =~= seq![e]);
            assert(split(c, '/') == seq![e] + st);
            assert(c.last() == j.last());
            assert forall|k: int|
                0 <= k < split(c, '/').len() && !(k == 0 && c[0] == '/') implies is_normal_component(
                #[trigger] split(c, '/')[k],
            ) by {
                assert(split(c, '/')[k] == st[k - 1]);
            }
        } else {
            assert(c == j);
            assert(j[0] != '/');
            assert(c != seq!['/']);
        }
    }
}

/// A safe relative path: non-empty, not `.`, not absolute, and without any
/// `..` component.
pub open spec fn spec_is_safe_relative_path(relative: Seq<char>) -> bool {
    &&& relative.len() > 0
    &&& relative != seq!['.']
    &&& relative[0] != '/'
    &&& !split(relative, '/').contains(seq!['.', '.'])
}

/// Return `true` when `relative` is a safe, purely lexical relative path.
///
/// Returns `false` for absolute paths, empty strings, `"."`, or any path
/// containing a `..` (parent) component. The check is lexical only — it does
/// not canonicalize, so a symlink inside the root that points outside the
/// root is trusted and could still be followed.
pub fn is_safe_relative_path(relative: &str) -> (b: bool)
    ensures
        b == spec_is_safe_relative_path(relative@),
{
    let chars = chars_of(relative);
    if chars.len() == 0 {
        return false;
    }
    if chars.len() == 1 && chars[0] == '.' {
        assert(chars@ =~= seq!['.']);
        return false;
    }
    assert(chars@ != seq!['.']) by {
        if chars@.len() == 1 { assert(chars@[0] != '.'); }
    }
    if chars[0] == '/' {
        return false;
    }
    let mut cur: Vec<char> = Vec::new();
    let mut i: usize = 0;
    while i < chars.len()
        invariant
            i <= chars@.len(),
            chars@ == relative@,
            cur@ == split(chars@.take(i as int), '/').last(),
            !split(chars@.take(i as int), '/').drop_last().contains(seq!['.', '.']),
            split(chars@.take(i as int), '/').len() > 0,
        decreases chars@.len() - i,
    {
        let c = chars[i];
        let ghost prev = chars@.take(i as int);
        let ghost parts = split(prev, '/');
        assert(chars@.take(i + 1).drop_last() =~= prev);
        if c == '/' {
            if cur.len() == 2 && cur[0] == '.' && cur[1] == '.' {
                assert(cur@ =~= seq!['.', '.']);
                assert(parts[parts.len() - 1] == seq!['.', '.']);
                proof {
                    lemma_split_prefix_parts(chars@, i as int);
                    let whole = split(chars@, '/');
                    assert(whole[parts.len() - 1] == seq!['.', '.']);
                    assert(whole.contains(seq!['.', '.']));
                    assert(chars@ == relative@);
                    assert(!spec_is_safe_relative_path(relative@));
                }
                return false;
            }
            assert(cur@ != seq!['.', '.']) by {
                if cur@.len() == 2 { assert(cur@[0] != '.' || cur@[1] != '.'); }
            }
            cur = Vec::new();
            assert(split(chars@.take(i + 1), '/') == parts.push(Seq::empty()));
            assert(split(chars@.take(i + 1), '/').drop_last() =~= parts);
            assert(!parts.contains(seq!['.', '.'])) by {
                if parts.contains(seq!['.', '.']) {
                    let k = choose|k: int| 0 <= k < parts.len() && parts[k] == seq!['.', '.'];
                    if k < parts.len() - 1 {
                        assert(parts.drop_last()[k] == parts[k]);
                    }
                }
            }
        } else {
            cur.push(c);
            assert(split(chars@.take(i + 1), '/') == parts.update(parts.len() - 1, parts.last().push(c)));
            assert(split(chars@.take(i + 1), '/').drop_last() =~= parts.drop_last());
        }
        i = i + 1;
    }
    assert(chars@.take(chars@.len() as int) =~= chars@);
    let ghost parts = split(chars@, '/');
    if cur.len() == 2 && cur[0] == '.' && cur[1] == '.' {
        assert(cur@ =~= seq!['.', '.']);
        assert(parts[parts.len() - 1] == seq!['.', '.']);
        return false;
    }
    assert(cur@ != seq!['.', '.']) by {
        if cur@.len() == 2 { assert(cur@[0] != '.' || cur@[1] != '.'); }
    }
    assert(!parts.contains(seq!['.', '.'])) by {
        if parts.contains(seq!['.', '.']) {
            let k = choose|k: int| 0 <= k < parts.len() && parts[k] == seq!['.', '.'];
            if k < parts.len() - 1 {
                assert(parts.drop_last()[k] == parts[k]);
            }
        }
    }
    true
}

/// The parts of a prefix's split, but its last, stay parts of the whole
/// string's split.
proof fn lemma_split_prefix_parts(s: Seq<char>, i: int)
    requires
        0 <= i < s.len(),
        s[i] == '/',
    ensures
        split(s.take(i), '/').len() > 0,
        split(s, '/').len() >= split(s.take(i), '/').len(),
        split(s, '/')[split(s.take(i), '/').len() - 1] == split(s.take(i), '/').last(),
{
    lemma_split_nonempty(s.take(i), '/');
    let a = s.take(i);
    let b = s.skip(i + 1);
    assert(s =~= a + seq!['/'] + b);
    lemma_split_concat(a, b);
}

/// Return `Some(joined)` when `relative` stays inside `root`; `None` when the
/// path is absolute, contains a `..` component, or is otherwise unsafe.
///
/// The safety check is purely lexical (see [`is_safe_relative_path`]);
/// symlinks inside the root are trusted.
pub fn join_within_root(root: &str, relative: &str) -> (p: Option<String>)
    ensures
        match p {
            Some(j) => spec_is_safe_relative_path(relative@) && j@ == spec_join_path(root@, relative@),
            None => !spec_is_safe_relative_path(relative@),
        },
{
    if !is_safe_relative_path(relative) {
        return None;
    }
    Some(join_path(root, relative))
}

/// A path joined within a root stays inside it: the root is a prefix of
/// the joined path, and what follows (the relative path, after a separator
/// when the root does not end in one) climbs out with no `..` component.
pub proof fn lemma_join_within_root_stays_inside(root: Seq<char>, relative: Seq<char>)
    requires
        spec_is_safe_relative_path(relative),
    ensures
        crate::text::starts_with(spec_join_path(root, relative), root),
        crate::text::ends_with(spec_join_path(root, relative), relative),
        !split(relative, '/').contains(seq!['.', '.']),
{
    let j = spec_join_path(root, relative);
    assert(j.subrange(0, root.len() as int) =~= root);
    assert(j.subrange(j.len() - relative.len(), j.len() as int) =~= relative);
}

} // verus!
